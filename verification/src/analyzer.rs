//! The scoring engine: it combines the evidence in the bytes of a file with
//! the score of a spectral analysis into a verdict.
//!
//! ```text
//! combined score | verdict
//! ---------------|----------
//! 0 to 34        | OK
//! 35 to 64       | SUSPECT
//! 65 to 100      | TRANSCODE
//! ```
//!
//! The two thresholds are those of the default configuration.

use vstd::prelude::*;
use vstd::string::*;
use crate::mp3::frame::{
    bitrates_of, find_sync, first_frame_offset, header_at, scan_frames, scanned_frames, total,
    FrameHeader, FrameStats,
};
use crate::mp3::lame::{extract_info, signature_info};
use crate::text::lines;

pub mod binary;

use binary::{outcome_of, scanned_sizes, BinaryDetails, BinaryOutcome};

verus! {

#[derive(Debug, Clone, Copy, PartialEq, Eq, Structural)]
pub enum Verdict {
    Okay,
    Suspect,
    Transcode,
    Error,
}

/// The name of a verdict in reports.
pub open spec fn verdict_text(verdict: Verdict) -> Seq<char> {
    match verdict {
        Verdict::Okay => "OK"@,
        Verdict::Suspect => "SUSPECT"@,
        Verdict::Transcode => "TRANSCODE"@,
        Verdict::Error => "ERROR"@,
    }
}

impl Verdict {
    /// How strong a verdict is: OK is weaker than SUSPECT, and SUSPECT weaker
    /// than TRANSCODE.
    pub open spec fn rank(self) -> nat {
        match self {
            Verdict::Okay => 0,
            Verdict::Suspect => 1,
            Verdict::Transcode => 2,
            Verdict::Error => 3,
        }
    }

    /// The name of the verdict in reports.
    pub fn label(&self) -> (r: String)
        ensures
            r@ == verdict_text(*self),
    {
        match self {
            Verdict::Okay => String::from_str("OK"),
            Verdict::Suspect => String::from_str("SUSPECT"),
            Verdict::Transcode => String::from_str("TRANSCODE"),
            Verdict::Error => String::from_str("ERROR"),
        }
    }
}

/// From this spectral score on, the spectral analysis counts as agreeing.
pub const SPECTRAL_AGREEMENT: u32 = 30;

/// From this binary score on, the binary analysis counts as agreeing.
pub const BINARY_AGREEMENT: u32 = 20;

/// Points added where both analyses agree.
pub const AGREEMENT_BONUS: u32 = 15;

/// The highest combined score.
pub const MAX_SCORE: u32 = 100;

/// The bonus for two analyses that agree.
pub open spec fn agreement_bonus(binary: nat, spectral: nat) -> nat {
    if spectral >= SPECTRAL_AGREEMENT && binary >= BINARY_AGREEMENT {
        AGREEMENT_BONUS as nat
    } else {
        0
    }
}

/// The combined score: the sum of both scores and the bonus, and 100 at most.
pub open spec fn combined(binary: nat, spectral: nat) -> nat {
    let sum = binary + spectral + agreement_bonus(binary, spectral);
    if sum > MAX_SCORE {
        MAX_SCORE as nat
    } else {
        sum
    }
}

/// The verdict for a combined score and two thresholds.
pub open spec fn verdict_of(score: u32, suspect: u32, transcode: u32) -> Verdict {
    if score >= transcode {
        Verdict::Transcode
    } else if score >= suspect {
        Verdict::Suspect
    } else {
        Verdict::Okay
    }
}

/// Combine the binary and the spectral score.
pub fn combine_scores(binary: u32, spectral: u32) -> (r: u32)
    ensures
        r == combined(binary as nat, spectral as nat),
        r <= MAX_SCORE,
{
    let mut sum: u64 = binary as u64 + spectral as u64;
    if spectral >= SPECTRAL_AGREEMENT && binary >= BINARY_AGREEMENT {
        sum = sum + AGREEMENT_BONUS as u64;
    }
    if sum > MAX_SCORE as u64 {
        MAX_SCORE
    } else {
        sum as u32
    }
}

/// The combined score never exceeds 100, and raising either score does not
/// lower it.
pub proof fn lemma_combined_monotone(binary: nat, spectral: nat, more_binary: nat, more_spectral: nat)
    requires
        binary <= more_binary,
        spectral <= more_spectral,
    ensures
        combined(binary, spectral) <= combined(more_binary, more_spectral) <= MAX_SCORE,
{
}

/// A higher combined score never gives a weaker verdict, whatever the
/// thresholds.
pub proof fn lemma_verdict_monotone(score: u32, more: u32, suspect: u32, transcode: u32)
    requires
        score <= more,
    ensures
        verdict_of(score, suspect, transcode).rank() <= verdict_of(more, suspect, transcode).rank(),
{
}

/// The configuration of an analysis.
pub struct Analyzer {
    /// Leave the spectral analysis out of account.
    pub skip_spectral: bool,
    /// From this combined score on, the verdict is TRANSCODE.
    pub transcode_threshold: u32,
    /// From this combined score on, the verdict is SUSPECT.
    pub suspect_threshold: u32,
    /// The number of frames that a scan looks at, at most.
    pub max_scan_frames: usize,
}

impl Default for Analyzer {
    fn default() -> (r: Self)
        ensures
            !r.skip_spectral,
            r.transcode_threshold == 65,
            r.suspect_threshold == 35,
            r.max_scan_frames == 200,
    {
        Analyzer {
            skip_spectral: false,
            transcode_threshold: 65,
            suspect_threshold: 35,
            max_scan_frames: 200,
        }
    }
}

/// What a spectral analysis found.
#[derive(Debug, Clone)]
pub struct SpectralResult {
    /// 0 to 100; 0 where the analysis was skipped.
    pub score: u32,
    pub flags: Vec<String>,
}

impl Default for SpectralResult {
    fn default() -> (r: Self)
        ensures
            r.score == 0,
            r.flags@.len() == 0,
    {
        SpectralResult { score: 0, flags: Vec::new() }
    }
}

/// The result of the analysis of one file.
#[derive(Debug, Clone)]
pub struct AnalysisResult {
    pub file_path: String,
    pub file_name: String,
    /// Nominal bitrate in kbps.
    pub bitrate: u32,
    /// Sample rate in Hz.
    pub sample_rate: u32,
    /// Estimated duration in whole seconds.
    pub duration_secs: u64,
    pub verdict: Verdict,
    pub combined_score: u32,
    pub spectral_score: u32,
    pub binary_score: u32,
    pub flags: Vec<String>,
    pub encoder: String,
    pub lowpass: Option<u32>,
    pub binary_details: Option<BinaryDetails>,
    pub error: Option<String>,
}

impl AnalysisResult {
    /// The combined score is what the two scores combine to.
    pub open spec fn wf(&self) -> bool {
        self.combined_score == combined(self.binary_score as nat, self.spectral_score as nat)
    }

    /// The result for a file that could not be read: the verdict is ERROR,
    /// the message is recorded, and every number is zero.
    pub fn unreadable(file_path: String, file_name: String, message: String) -> (r: AnalysisResult)
        ensures
            r.file_path@ == file_path@,
            r.file_name@ == file_name@,
            r.verdict == Verdict::Error,
            r.error matches Some(text) && text@ == message@,
            r.bitrate == 0 && r.sample_rate == 0 && r.duration_secs == 0,
            r.combined_score == 0 && r.spectral_score == 0 && r.binary_score == 0,
            r.flags@.len() == 0,
            r.encoder@.len() == 0,
            r.lowpass is None,
            r.binary_details is None,
            r.wf(),
    {
        AnalysisResult {
            file_path,
            file_name,
            bitrate: 0,
            sample_rate: 0,
            duration_secs: 0,
            verdict: Verdict::Error,
            combined_score: 0,
            spectral_score: 0,
            binary_score: 0,
            flags: Vec::new(),
            encoder: String::new(),
            lowpass: None,
            binary_details: None,
            error: Some(message),
        }
    }
}

/// The sample rate that is taken where no frame tells it.
pub const DEFAULT_SAMPLE_RATE: u32 = 44100;

/// The nominal bitrate of a stream in kbps: the truncated mean of the
/// bitrates of the frames that a scan finds, and 0 without frames.
pub open spec fn stream_bitrate(data: Seq<u8>, budget: nat) -> int {
    let frames = scanned_frames(data, budget);
    if frames.len() == 0 {
        0
    } else {
        total(bitrates_of(frames)) / (frames.len() as int)
    }
}

/// The sample rate of a stream in Hz: that of its first frame, where a scan
/// finds frames and the search for the first frame finds it, and else 44100.
pub open spec fn stream_sample_rate(data: Seq<u8>, budget: nat) -> u32 {
    if scanned_frames(data, budget).len() > 0 {
        match first_frame_offset(data) {
            Some(p) => header_at(data, p)->Some_0.sample_rate,
            None => DEFAULT_SAMPLE_RATE,
        }
    } else {
        DEFAULT_SAMPLE_RATE
    }
}

/// The estimated duration in whole seconds of `bytes` bytes at a bitrate in
/// kbps, and 0 at bitrate 0.
pub open spec fn duration_of(bytes: int, bitrate: u32) -> int {
    if bitrate > 0 {
        (bytes * 8) / (bitrate * 1000)
    } else {
        0
    }
}

/// What the binary analysis of a stream at a bitrate comes to, with a scan
/// of at most `max_frames` frames.
pub open spec fn binary_outcome(data: Seq<u8>, bitrate: u32, max_frames: usize) -> BinaryOutcome {
    outcome_of(
        bitrate,
        extract_info(data),
        signature_info(data),
        scanned_sizes(data, max_frames as nat),
    )
}

/// Bitrate and sample rate of a stream.
#[derive(Debug, Clone, Copy)]
pub struct StreamInfo {
    pub bitrate: u32,
    pub sample_rate: u32,
}

/// Estimate the duration of a file from its length and bitrate.
pub fn estimate_duration(bytes: usize, bitrate: u32) -> (r: u64)
    ensures
        r == duration_of(bytes as int, bitrate),
{
    if bitrate == 0 {
        return 0;
    }
    let bits: u128 = bytes as u128 * 8;
    let rate: u128 = bitrate as u128 * 1000;
    let secs: u128 = bits / rate;
    assert(secs <= bits) by (nonlinear_arith)
        requires
            secs == bits / rate,
            rate >= 8,
    ;
    assert(secs * 8 <= bits) by (nonlinear_arith)
        requires
            secs == bits / rate,
            rate >= 8,
    ;
    secs as u64
}

impl Analyzer {
    pub fn new() -> (r: Self)
        ensures
            !r.skip_spectral,
            r.transcode_threshold == 65,
            r.suspect_threshold == 35,
            r.max_scan_frames == 200,
    {
        Analyzer::default()
    }

    pub fn with_skip_spectral(self, skip: bool) -> (r: Self)
        ensures
            r.skip_spectral == skip,
            r.transcode_threshold == self.transcode_threshold,
            r.suspect_threshold == self.suspect_threshold,
            r.max_scan_frames == self.max_scan_frames,
    {
        Analyzer {
            skip_spectral: skip,
            transcode_threshold: self.transcode_threshold,
            suspect_threshold: self.suspect_threshold,
            max_scan_frames: self.max_scan_frames,
        }
    }

    /// Set the two thresholds. The suspect threshold is meant to lie below
    /// the transcode threshold; this is not checked.
    pub fn with_thresholds(self, suspect: u32, transcode: u32) -> (r: Self)
        ensures
            r.skip_spectral == self.skip_spectral,
            r.transcode_threshold == transcode,
            r.suspect_threshold == suspect,
            r.max_scan_frames == self.max_scan_frames,
    {
        Analyzer {
            skip_spectral: self.skip_spectral,
            transcode_threshold: transcode,
            suspect_threshold: suspect,
            max_scan_frames: self.max_scan_frames,
        }
    }

    pub fn with_max_scan_frames(self, max_frames: usize) -> (r: Self)
        ensures
            r.skip_spectral == self.skip_spectral,
            r.transcode_threshold == self.transcode_threshold,
            r.suspect_threshold == self.suspect_threshold,
            r.max_scan_frames == max_frames,
    {
        Analyzer {
            skip_spectral: self.skip_spectral,
            transcode_threshold: self.transcode_threshold,
            suspect_threshold: self.suspect_threshold,
            max_scan_frames: max_frames,
        }
    }

    /// The verdict for a combined score.
    pub fn verdict(&self, combined_score: u32) -> (r: Verdict)
        ensures
            r == verdict_of(combined_score, self.suspect_threshold, self.transcode_threshold),
            r != Verdict::Error,
    {
        if combined_score >= self.transcode_threshold {
            Verdict::Transcode
        } else if combined_score >= self.suspect_threshold {
            Verdict::Suspect
        } else {
            Verdict::Okay
        }
    }

    /// The spectral score that counts: 0 where the spectral analysis is left
    /// out of account.
    pub open spec fn spectral_score(&self, spectral: SpectralResult) -> u32 {
        if self.skip_spectral {
            0
        } else {
            spectral.score
        }
    }

    /// The spectral flags that count.
    pub open spec fn spectral_flags(&self, spectral: SpectralResult) -> Seq<Seq<char>> {
        if self.skip_spectral {
            Seq::empty()
        } else {
            lines(spectral.flags@)
        }
    }

    /// Bitrate and sample rate of a stream, as a scan of its frames tells
    /// them.
    pub fn probe(&self, data: &[u8]) -> (r: StreamInfo)
        ensures
            r.bitrate == stream_bitrate(data@, self.max_scan_frames as nat),
            r.sample_rate == stream_sample_rate(data@, self.max_scan_frames as nat),
    {
        let stats = match scan_frames(data, self.max_scan_frames) {
            Ok(stats) => stats,
            Err(_) => FrameStats::default(),
        };
        let mut sample_rate = DEFAULT_SAMPLE_RATE;
        if stats.frame_sizes.len() > 0 {
            if let Ok(Some(pos)) = find_sync(data) {
                let at: usize = pos as usize;
                let header: [u8; 4] = [data[at], data[at + 1], data[at + 2], data[at + 3]];
                assert(header@ =~= data@.subrange(at as int, at + 4));
                if let Some(frame) = FrameHeader::parse(header) {
                    sample_rate = frame.sample_rate;
                }
            }
        }
        StreamInfo { bitrate: stats.avg_bitrate, sample_rate }
    }

    /// Analyze the bytes of one file, given what the spectral analysis found.
    ///
    /// The binary score is that of `binary::analyze` at the stream's nominal
    /// bitrate. Where the spectral analysis is left out of account, its score
    /// counts as 0 and its flags are dropped. The combined score is the sum
    /// of both scores, with 15 more where the spectral score is at least 30
    /// and the binary score at least 20, and 100 at most. The verdict follows
    /// from the combined score and the two thresholds.
    pub fn analyze(
        &self,
        file_path: String,
        file_name: String,
        data: &[u8],
        spectral: SpectralResult,
    ) -> (r: AnalysisResult)
        ensures
            r.file_path@ == file_path@,
            r.file_name@ == file_name@,
            r.bitrate == stream_bitrate(data@, self.max_scan_frames as nat),
            r.sample_rate == stream_sample_rate(data@, self.max_scan_frames as nat),
            r.duration_secs == duration_of(data@.len() as int, r.bitrate),
            r.binary_score == binary_outcome(data@, r.bitrate, self.max_scan_frames).score,
            r.spectral_score == self.spectral_score(spectral),
            r.combined_score == combined(r.binary_score as nat, r.spectral_score as nat),
            r.combined_score <= MAX_SCORE,
            r.verdict == verdict_of(
                r.combined_score,
                self.suspect_threshold,
                self.transcode_threshold,
            ),
            lines(r.flags@) == binary_outcome(data@, r.bitrate, self.max_scan_frames).flags
                + self.spectral_flags(spectral),
            r.encoder@ == binary_outcome(data@, r.bitrate, self.max_scan_frames).encoder,
            r.lowpass == binary_outcome(data@, r.bitrate, self.max_scan_frames).lowpass,
            r.binary_details matches Some(details) && details.agrees_with(
                binary_outcome(data@, r.bitrate, self.max_scan_frames),
            ),
            r.error is None,
            r.wf(),
    {
        let info = self.probe(data);
        let duration_secs = estimate_duration(data.len(), info.bitrate);
        let binary_result = binary::analyze(data, info.bitrate, self.max_scan_frames);
        let mut spectral = spectral;
        let ghost given = spectral;
        if self.skip_spectral {
            spectral = SpectralResult::default();
        }
        let binary::BinaryResult { score, flags, encoder, lowpass, details } = binary_result;
        let combined_score = combine_scores(score, spectral.score);
        let verdict = self.verdict(combined_score);
        let mut flags = flags;
        let mut spectral_flags = spectral.flags;
        let ghost first = flags@;
        let ghost second = spectral_flags@;
        flags.append(&mut spectral_flags);
        proof {
            assert(lines(first + second) =~= lines(first) + lines(second));
            assert(lines(second) =~= self.spectral_flags(given));
        }
        AnalysisResult {
            file_path,
            file_name,
            bitrate: info.bitrate,
            sample_rate: info.sample_rate,
            duration_secs,
            verdict,
            combined_score,
            spectral_score: spectral.score,
            binary_score: score,
            flags,
            encoder,
            lowpass,
            binary_details: Some(details),
            error: None,
        }
    }
}

} // verus!
