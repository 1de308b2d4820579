//! The evidence in the bytes of a file: a lowpass that is too low for the
//! bitrate, the fingerprints of more than one encoder, and frames of
//! irregular size.

use vstd::prelude::*;
use vstd::string::*;
use crate::mp3::frame::{
    cv_exceeds, frame_sizes_of, scan_frames, scanned_frames, sizes_bounded, sizes_cv_exceeds,
};
use crate::mp3::lame::{
    encoder_count, expected_lowpass, expected_lowpass_for_bitrate, extract_info, info_of,
    lowpass_suspicious,
    min_acceptable_lowpass, scan_encoder_signatures, signature_info, EncoderSignatures, LameHeader,
    LameInfo, SignatureInfo,
};
use crate::text::{decimal_digits, lines, push_decimal, push_line};

verus! {

/// What the binary analysis looked at.
#[derive(Debug, Clone)]
pub struct BinaryDetails {
    pub lowpass: Option<u32>,
    pub expected_lowpass: Option<u32>,
    pub encoder_version: Option<String>,
    pub encoder_count: usize,
    pub is_vbr: bool,
    pub total_frames: Option<u32>,
}

/// The outcome of the binary analysis.
#[derive(Debug, Clone)]
pub struct BinaryResult {
    pub score: u32,
    pub flags: Vec<String>,
    pub encoder: String,
    pub lowpass: Option<u32>,
    pub details: BinaryDetails,
}

/// The mathematical content of a `BinaryResult`.
pub struct BinaryOutcome {
    pub score: nat,
    pub flags: Seq<Seq<char>>,
    pub encoder: Seq<char>,
    pub lowpass: Option<u32>,
    pub expected_lowpass: Option<u32>,
    pub encoder_version: Option<Seq<char>>,
    pub encoder_count: nat,
    pub is_vbr: bool,
    pub total_frames: Option<u32>,
}

impl View for BinaryResult {
    type V = BinaryOutcome;

    open spec fn view(&self) -> BinaryOutcome {
        BinaryOutcome {
            score: self.score as nat,
            flags: lines(self.flags@),
            encoder: self.encoder@,
            lowpass: self.lowpass,
            expected_lowpass: self.details.expected_lowpass,
            encoder_version: match self.details.encoder_version {
                Some(version) => Some(version@),
                None => None,
            },
            encoder_count: self.details.encoder_count as nat,
            is_vbr: self.details.is_vbr,
            total_frames: self.details.total_frames,
        }
    }
}

impl BinaryDetails {
    /// The details are those of the outcome.
    pub open spec fn agrees_with(&self, outcome: BinaryOutcome) -> bool {
        &&& self.lowpass == outcome.lowpass
        &&& self.expected_lowpass == outcome.expected_lowpass
        &&& outcome.encoder_version == match self.encoder_version {
            Some(version) => Some(version@),
            None => None,
        }
        &&& self.encoder_count == outcome.encoder_count
        &&& self.is_vbr == outcome.is_vbr
        &&& self.total_frames == outcome.total_frames
    }
}

impl BinaryResult {
    /// The lowpass is listed once more among the details.
    pub open spec fn wf(&self) -> bool {
        self.details.lowpass == self.lowpass
    }
}

impl Default for BinaryDetails {
    fn default() -> (r: Self)
        ensures
            r.lowpass is None,
            r.expected_lowpass is None,
            r.encoder_version is None,
            r.encoder_count == 0,
            !r.is_vbr,
            r.total_frames is None,
    {
        BinaryDetails {
            lowpass: None,
            expected_lowpass: None,
            encoder_version: None,
            encoder_count: 0,
            is_vbr: false,
            total_frames: None,
        }
    }
}

impl Default for BinaryResult {
    fn default() -> (r: Self)
        ensures
            r.score == 0,
            r.flags@.len() == 0,
            r.encoder@ == "unknown"@,
            r.lowpass is None,
            r.wf(),
    {
        BinaryResult {
            score: 0,
            flags: Vec::new(),
            encoder: String::from_str("unknown"),
            lowpass: None,
            details: BinaryDetails::default(),
        }
    }
}

/// Points for a lowpass that is too low for the bitrate.
pub const LOWPASS_POINTS: u32 = 35;

/// Points for the fingerprints of more than one encoder.
pub const MULTI_ENCODER_POINTS: u32 = 20;

/// Points for frames of irregular size at a high bitrate.
pub const IRREGULAR_POINTS: u32 = 10;

/// From this bitrate on, in kbps, irregular frames count.
pub const HIGH_BITRATE: u32 = 256;

/// Frame sizes are irregular where their coefficient of variation is above
/// this percentage.
pub const CV_LIMIT: u8 = 15;

/// The lowpass that the header gives, if there is a header and it gives one.
pub open spec fn header_lowpass(lame: Option<LameInfo>) -> Option<u32> {
    match lame {
        Some(h) => h.lowpass,
        None => None,
    }
}

/// The header gives a lowpass that is too low for the bitrate.
pub open spec fn rule_lowpass(bitrate: u32, lame: Option<LameInfo>) -> bool {
    header_lowpass(lame) matches Some(hz) && lowpass_suspicious(bitrate, hz)
}

/// More than one encoder left its fingerprint.
pub open spec fn rule_multi_encoder(sigs: SignatureInfo) -> bool {
    encoder_count(sigs) > 1
}

/// The bitrate is high and the frame sizes vary by more than the limit.
pub open spec fn rule_irregular(bitrate: u32, sizes: Seq<u32>) -> bool {
    bitrate >= HIGH_BITRATE && cv_exceeds(sizes, CV_LIMIT as nat)
}

/// The flag for a lowpass mismatch.
pub open spec fn lowpass_flag(hz: u32) -> Seq<char> {
    "lowpass_mismatch("@ + decimal_digits(hz as nat) + "Hz)"@
}

/// The binary score: the points of the rules that apply.
pub open spec fn binary_score(bitrate: u32, lame: Option<LameInfo>, sigs: SignatureInfo, sizes: Seq<u32>) -> nat {
    let lowpass: nat = if rule_lowpass(bitrate, lame) {
        LOWPASS_POINTS as nat
    } else {
        0
    };
    let multi: nat = if rule_multi_encoder(sigs) {
        MULTI_ENCODER_POINTS as nat
    } else {
        0
    };
    let irregular: nat = if rule_irregular(bitrate, sizes) {
        IRREGULAR_POINTS as nat
    } else {
        0
    };
    lowpass + multi + irregular
}

/// The flags of the rules that apply, in the order of the rules.
pub open spec fn binary_flags(bitrate: u32, lame: Option<LameInfo>, sigs: SignatureInfo, sizes: Seq<u32>) -> Seq<Seq<char>> {
    let lowpass: Seq<Seq<char>> = if rule_lowpass(bitrate, lame) {
        seq![lowpass_flag(header_lowpass(lame)->Some_0)]
    } else {
        Seq::empty()
    };
    let multi: Seq<Seq<char>> = if rule_multi_encoder(sigs) {
        seq!["multi_encoder_sigs"@]
    } else {
        Seq::empty()
    };
    let irregular: Seq<Seq<char>> = if rule_irregular(bitrate, sizes) {
        seq!["irregular_frames"@]
    } else {
        Seq::empty()
    };
    lowpass + multi + irregular
}

/// The name of the encoder: the header's, where it has one and it is not
/// empty; else the LAME version among the fingerprints; else the first of
/// Fraunhofer, iTunes and FFmpeg whose fingerprint was found; else "unknown".
pub open spec fn chosen_encoder(lame: Option<LameInfo>, sigs: SignatureInfo) -> Seq<char> {
    if lame matches Some(h) && h.encoder.len() > 0 {
        lame->Some_0.encoder
    } else if sigs.lame is Some {
        sigs.lame->Some_0
    } else if sigs.fraunhofer {
        "Fraunhofer"@
    } else if sigs.itunes {
        "iTunes"@
    } else if sigs.ffmpeg {
        "FFmpeg"@
    } else {
        "unknown"@
    }
}

/// What the evidence amounts to.
pub open spec fn outcome_of(bitrate: u32, lame: Option<LameInfo>, sigs: SignatureInfo, sizes: Seq<u32>) -> BinaryOutcome {
    BinaryOutcome {
        score: binary_score(bitrate, lame, sigs, sizes),
        flags: binary_flags(bitrate, lame, sigs, sizes),
        encoder: chosen_encoder(lame, sigs),
        lowpass: header_lowpass(lame),
        expected_lowpass: if header_lowpass(lame) is Some {
            Some(expected_lowpass(bitrate))
        } else {
            None
        },
        encoder_version: match lame {
            Some(h) => Some(h.encoder),
            None => None,
        },
        encoder_count: encoder_count(sigs),
        is_vbr: lame matches Some(h) && h.is_vbr_header,
        total_frames: match lame {
            Some(h) => h.total_frames,
            None => None,
        },
    }
}

/// Choose the name of the encoder.
fn choose_encoder(lame: &Option<LameHeader>, sigs: &EncoderSignatures) -> (r: String)
    ensures
        r@ == chosen_encoder(info_of(*lame), sigs@),
{
    if let Some(h) = lame {
        if h.encoder.as_str().unicode_len() > 0 {
            return h.encoder.clone();
        }
    }
    if let Some(version) = &sigs.lame {
        return version.clone();
    }
    if sigs.fraunhofer {
        String::from_str("Fraunhofer")
    } else if sigs.itunes {
        String::from_str("iTunes")
    } else if sigs.ffmpeg {
        String::from_str("FFmpeg")
    } else {
        String::from_str("unknown")
    }
}

/// Weigh the evidence.
///
/// The score is the sum of the points of the rules that apply: 35 for a
/// lowpass in the header that is too low for the bitrate, 20 for the
/// fingerprints of more than one encoder, 10 for frame sizes that vary by
/// more than 15 percent at 256 kbps or more. Each rule that applies leaves
/// its flag, in this order.
pub fn assess(bitrate: u32, lame: Option<LameHeader>, sigs: &EncoderSignatures, frame_sizes: &[u32]) -> (r: BinaryResult)
    requires
        sizes_bounded(frame_sizes@),
    ensures
        r@ == outcome_of(bitrate, info_of(lame), sigs@, frame_sizes@),
        r.wf(),
        r.score <= 65,
{
    let ghost info: Option<LameInfo> = info_of(lame);
    let encoder = choose_encoder(&lame, sigs);
    let mut score: u32 = 0;
    let mut flags: Vec<String> = Vec::new();
    let mut lowpass: Option<u32> = None;
    let mut expected: Option<u32> = None;
    let mut encoder_version: Option<String> = None;
    let mut is_vbr = false;
    let mut total_frames: Option<u32> = None;
    assert(lines(flags@) =~= Seq::<Seq<char>>::empty());
    if let Some(h) = lame {
        lowpass = h.lowpass;
        is_vbr = h.is_vbr_header;
        total_frames = h.total_frames;
        if let Some(hz) = h.lowpass {
            expected = Some(expected_lowpass_for_bitrate(bitrate));
            let threshold = min_acceptable_lowpass(bitrate);
            if threshold > 0 && hz > 0 && hz < threshold {
                score = score + LOWPASS_POINTS;
                let mut flag = String::from_str("lowpass_mismatch(");
                push_decimal(&mut flag, hz as u64);
                flag.append("Hz)");
                push_line(&mut flags, flag);
            }
        }
        encoder_version = Some(h.encoder);
    }
    let ghost after_lowpass = lines(flags@);
    let count = sigs.distinct_encoders();
    if count > 1 {
        score = score + MULTI_ENCODER_POINTS;
        push_line(&mut flags, String::from_str("multi_encoder_sigs"));
    }
    let ghost after_multi = lines(flags@);
    if bitrate >= HIGH_BITRATE && sizes_cv_exceeds(frame_sizes, CV_LIMIT) {
        score = score + IRREGULAR_POINTS;
        push_line(&mut flags, String::from_str("irregular_frames"));
    }
    proof {
        assert(lines(flags@) =~= binary_flags(bitrate, info, sigs@, frame_sizes@));
    }
    BinaryResult {
        score,
        flags,
        encoder,
        lowpass,
        details: BinaryDetails {
            lowpass,
            expected_lowpass: expected,
            encoder_version,
            encoder_count: count,
            is_vbr,
            total_frames,
        },
    }
}

/// The sizes of the frames that a scan finds.
pub open spec fn scanned_sizes(data: Seq<u8>, budget: nat) -> Seq<u32> {
    frame_sizes_of(scanned_frames(data, budget))
}

/// Perform the binary analysis of a file, given its nominal bitrate in kbps.
///
/// The evidence is the header that `LameHeader::extract` reads, the
/// fingerprints that `scan_encoder_signatures` finds, and the sizes of the
/// frames that a scan of at most `max_frames` frames finds.
pub fn analyze(data: &[u8], bitrate: u32, max_frames: usize) -> (r: BinaryResult)
    ensures
        r@ == outcome_of(
            bitrate,
            extract_info(data@),
            signature_info(data@),
            scanned_sizes(data@, max_frames as nat),
        ),
        r.wf(),
        r.score <= 65,
{
    let lame = LameHeader::extract(data);
    let sigs = scan_encoder_signatures(data);
    let sizes: Vec<u32> = match scan_frames(data, max_frames) {
        Ok(stats) => stats.frame_sizes,
        Err(_) => Vec::new(),
    };
    assess(bitrate, lame, &sigs, sizes.as_slice())
}

} // verus!
