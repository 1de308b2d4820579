//! What reports are made of: the summary of a batch of results, and the
//! escaping of text for CSV and HTML.

use vstd::prelude::*;
use vstd::string::*;
use crate::analyzer::{AnalysisResult, Verdict};

pub mod csv;
pub mod html;
pub mod json;

verus! {

/// How many results of a batch have each verdict.
#[derive(Debug, Clone)]
pub struct Summary {
    pub total: usize,
    pub ok: usize,
    pub suspect: usize,
    pub transcode: usize,
    pub error: usize,
}

impl Default for Summary {
    fn default() -> (r: Self)
        ensures
            r.total == 0 && r.ok == 0 && r.suspect == 0 && r.transcode == 0 && r.error == 0,
    {
        Summary { total: 0, ok: 0, suspect: 0, transcode: 0, error: 0 }
    }
}

/// The number of results with the verdict.
pub open spec fn count_verdict(results: Seq<AnalysisResult>, verdict: Verdict) -> nat
    decreases results.len(),
{
    if results.len() == 0 {
        0
    } else {
        let last: nat = if results.last().verdict == verdict {
            1
        } else {
            0
        };
        count_verdict(results.drop_last(), verdict) + last
    }
}

impl Summary {
    /// Count the results of a batch by verdict.
    pub fn from_results(results: &[AnalysisResult]) -> (r: Summary)
        ensures
            r.total == results@.len(),
            r.ok == count_verdict(results@, Verdict::Okay),
            r.suspect == count_verdict(results@, Verdict::Suspect),
            r.transcode == count_verdict(results@, Verdict::Transcode),
            r.error == count_verdict(results@, Verdict::Error),
            r.ok + r.suspect + r.transcode + r.error == r.total,
    {
        let n = results.len();
        let mut summary = Summary::default();
        summary.total = n;
        let mut i: usize = 0;
        while i < n
            invariant
                n == results@.len(),
                i <= n,
                summary.total == n,
                summary.ok == count_verdict(results@.take(i as int), Verdict::Okay),
                summary.suspect == count_verdict(results@.take(i as int), Verdict::Suspect),
                summary.transcode == count_verdict(results@.take(i as int), Verdict::Transcode),
                summary.error == count_verdict(results@.take(i as int), Verdict::Error),
                summary.ok + summary.suspect + summary.transcode + summary.error == i,
            decreases n - i,
        {
            proof {
                assert(results@.take(i + 1).drop_last() =~= results@.take(i as int));
            }
            match results[i].verdict {
                Verdict::Okay => {
                    summary.ok = summary.ok + 1;
                },
                Verdict::Suspect => {
                    summary.suspect = summary.suspect + 1;
                },
                Verdict::Transcode => {
                    summary.transcode = summary.transcode + 1;
                },
                Verdict::Error => {
                    summary.error = summary.error + 1;
                },
            }
            i = i + 1;
        }
        proof {
            assert(results@.take(n as int) =~= results@);
        }
        summary
    }
}


/// The formats of a report.
#[derive(Debug, Clone, Copy, PartialEq, Eq, Structural)]
pub enum ReportFormat {
    Csv,
    Html,
    Json,
}

/// An upper-case ASCII letter as the lower-case one, and any other character
/// as it is.
pub open spec fn ascii_lower(c: char) -> char {
    if 'A' <= c <= 'Z' {
        ((c as u8) + 32) as char
    } else {
        c
    }
}

/// The text with its upper-case ASCII letters in lower case.
pub open spec fn lowered(s: Seq<char>) -> Seq<char> {
    s.map_values(|c: char| ascii_lower(c))
}

/// The format that a file name's extension asks for: HTML for "html" and
/// "htm", JSON for "json", in upper or lower case, and CSV for any other.
pub open spec fn format_of(extension: Seq<char>) -> ReportFormat {
    if lowered(extension) == "html"@ || lowered(extension) == "htm"@ {
        ReportFormat::Html
    } else if lowered(extension) == "json"@ {
        ReportFormat::Json
    } else {
        ReportFormat::Csv
    }
}

/// Choose the format of a report by the extension of its file name.
pub fn format_for_extension(extension: &str) -> (r: ReportFormat)
    ensures
        r == format_of(extension@),
{
    let n = extension.unicode_len();
    let mut lower = String::new();
    let mut i: usize = 0;
    assert(lower@ =~= lowered(extension@.take(0)));
    while i < n
        invariant
            n == extension@.len(),
            i <= n,
            lower@ == lowered(extension@.take(i as int)),
        decreases n - i,
    {
        let c = extension.get_char(i);
        if 'A' <= c && c <= 'Z' {
            lower.push(((c as u8) + 32) as char);
        } else {
            lower.push(c);
        }
        i = i + 1;
        assert(lower@ =~= lowered(extension@.take(i as int)));
    }
    assert(extension@.take(n as int) =~= extension@);
    if lower == String::from_str("html") || lower == String::from_str("htm") {
        ReportFormat::Html
    } else if lower == String::from_str("json") {
        ReportFormat::Json
    } else {
        ReportFormat::Csv
    }
}

} // verus!
