//! The lines of a CSV report.

use vstd::prelude::*;
use vstd::string::*;
use crate::analyzer::{verdict_text, AnalysisResult};
use crate::text::{decimal_digits, lines, push_decimal};

verus! {

/// The text holds a comma, a quotation mark or a line feed.
pub open spec fn needs_quotes(s: Seq<char>) -> bool {
    s.contains(',') || s.contains('"') || s.contains('\n')
}

/// The text with each quotation mark doubled.
pub open spec fn double_quotes(s: Seq<char>) -> Seq<char>
    decreases s.len(),
{
    if s.len() == 0 {
        Seq::empty()
    } else if s.last() == '"' {
        double_quotes(s.drop_last()) + seq!['"', '"']
    } else {
        double_quotes(s.drop_last()).push(s.last())
    }
}

/// The text as a field: as it is, or, where it needs quotes, between
/// quotation marks and with its own quotation marks doubled.
pub open spec fn csv_field(s: Seq<char>) -> Seq<char> {
    if needs_quotes(s) {
        seq!['"'] + double_quotes(s) + seq!['"']
    } else {
        s
    }
}

/// Escape a text for a field of a CSV file.
pub fn escape_csv(s: &str) -> (r: String)
    ensures
        r@ == csv_field(s@),
{
    let n = s.unicode_len();
    let mut quoted = String::from_str("\"");
    proof {
        reveal_strlit("\"");
        assert(quoted@ =~= seq!['"'] + double_quotes(s@.take(0)));
    }
    let mut needed = false;
    let mut i: usize = 0;
    while i < n
        invariant
            n == s@.len(),
            i <= n,
            needed == needs_quotes(s@.take(i as int)),
            quoted@ == seq!['"'] + double_quotes(s@.take(i as int)),
        decreases n - i,
    {
        let c = s.get_char(i);
        let ghost before = s@.take(i as int);
        let ghost after = s@.take(i + 1);
        proof {
            assert(after.drop_last() =~= before);
            assert(after.last() == c);
            assert(after =~= before.push(c));
            assert forall|x: char| after.contains(x) == (before.contains(x) || x == c) by {
                if before.contains(x) {
                    let k = choose|k: int| 0 <= k < before.len() && before[k] == x;
                    assert(after[k] == x);
                }
                if x == c {
                    assert(after[i as int] == x);
                }
            }
        }
        if c == ',' || c == '"' || c == '\n' {
            needed = true;
        }
        if c == '"' {
            quoted.push('"');
            quoted.push('"');
        } else {
            quoted.push(c);
        }
        i = i + 1;
        assert(quoted@ =~= seq!['"'] + double_quotes(after));
    }
    proof {
        assert(s@.take(n as int) =~= s@);
    }
    if needed {
        quoted.push('"');
        assert(quoted@ =~= csv_field(s@));
        quoted
    } else {
        String::from_str(s)
    }
}


/// The texts with the separator between each two of them.
pub open spec fn joined(texts: Seq<Seq<char>>, separator: Seq<char>) -> Seq<char>
    decreases texts.len(),
{
    if texts.len() == 0 {
        Seq::empty()
    } else if texts.len() == 1 {
        texts[0]
    } else {
        joined(texts.drop_last(), separator) + separator + texts.last()
    }
}

/// The flags in a line: separated by commas, and a hyphen where there are
/// none.
pub open spec fn csv_flags(flags: Seq<Seq<char>>) -> Seq<char> {
    if flags.len() == 0 {
        "-"@
    } else {
        joined(flags, ","@)
    }
}

/// The lowpass in a line: the number, and "n/a" where there is none.
pub open spec fn csv_lowpass(lowpass: Option<u32>) -> Seq<char> {
    match lowpass {
        Some(hz) => decimal_digits(hz as nat),
        None => "n/a"@,
    }
}

/// The line of a result, without a line feed: verdict, path, bitrate, the
/// three scores, flags, encoder and lowpass, separated by commas.
pub open spec fn csv_line(r: AnalysisResult) -> Seq<char> {
    verdict_text(r.verdict) + ","@ + csv_field(r.file_path@) + ","@ + decimal_digits(
        r.bitrate as nat,
    ) + ","@ + decimal_digits(r.combined_score as nat) + ","@ + decimal_digits(
        r.spectral_score as nat,
    ) + ","@ + decimal_digits(r.binary_score as nat) + ","@ + csv_flags(lines(r.flags@)) + ","@
        + csv_field(r.encoder@) + ","@ + csv_lowpass(r.lowpass)
}

/// The first line of a report, which names the columns.
pub fn csv_header() -> (r: &'static str)
    ensures
        r@ == "verdict,filepath,bitrate_kbps,combined_score,spectral_score,binary_score,flags,encoder,lowpass"@,
{
    "verdict,filepath,bitrate_kbps,combined_score,spectral_score,binary_score,flags,encoder,lowpass"
}

/// Append texts with a separator between each two of them.
pub fn push_joined(out: &mut String, texts: &Vec<String>, separator: &str)
    ensures
        final(out)@ == old(out)@ + joined(lines(texts@), separator@),
{
    let n = texts.len();
    let mut i: usize = 0;
    assert(out@ =~= old(out)@ + joined(lines(texts@).take(0), separator@));
    while i < n
        invariant
            n == texts@.len(),
            i <= n,
            out@ == old(out)@ + joined(lines(texts@).take(i as int), separator@),
        decreases n - i,
    {
        let ghost before = lines(texts@).take(i as int);
        let ghost after = lines(texts@).take(i + 1);
        proof {
            assert(after.drop_last() =~= before);
            assert(after.last() == texts@[i as int]@);
        }
        if i > 0 {
            out.append(separator);
        }
        out.append(texts[i].as_str());
        i = i + 1;
        assert(out@ =~= old(out)@ + joined(after, separator@));
    }
    assert(lines(texts@).take(n as int) =~= lines(texts@));
}

/// The line of a result in a CSV report, without a line feed.
pub fn csv_row(r: &AnalysisResult) -> (line: String)
    ensures
        line@ == csv_line(*r),
{
    let mut line = r.verdict.label();
    line.append(",");
    line.append(escape_csv(r.file_path.as_str()).as_str());
    line.append(",");
    push_decimal(&mut line, r.bitrate as u64);
    line.append(",");
    push_decimal(&mut line, r.combined_score as u64);
    line.append(",");
    push_decimal(&mut line, r.spectral_score as u64);
    line.append(",");
    push_decimal(&mut line, r.binary_score as u64);
    line.append(",");
    if r.flags.len() == 0 {
        line.append("-");
    } else {
        push_joined(&mut line, &r.flags, ",");
    }
    line.append(",");
    line.append(escape_csv(r.encoder.as_str()).as_str());
    line.append(",");
    match r.lowpass {
        Some(hz) => {
            push_decimal(&mut line, hz as u64);
        },
        None => {
            line.append("n/a");
        },
    }
    line
}


/// The lines of the results, each with a line feed behind it.
pub open spec fn csv_lines(results: Seq<AnalysisResult>) -> Seq<char>
    decreases results.len(),
{
    if results.len() == 0 {
        Seq::empty()
    } else {
        csv_lines(results.drop_last()) + csv_line(results.last()) + "\n"@
    }
}

/// The text of a CSV report: the line that names the columns, and a line
/// for each result, in the order of the results.
pub fn render(results: &[AnalysisResult]) -> (text: String)
    ensures
        text@ == "verdict,filepath,bitrate_kbps,combined_score,spectral_score,binary_score,flags,encoder,lowpass"@
            + "\n"@ + csv_lines(results@),
{
    let n = results.len();
    let mut rows = String::new();
    let mut i: usize = 0;
    assert(rows@ =~= csv_lines(results@.take(0)));
    while i < n
        invariant
            n == results@.len(),
            i <= n,
            rows@ == csv_lines(results@.take(i as int)),
        decreases n - i,
    {
        proof {
            assert(results@.take(i + 1).drop_last() =~= results@.take(i as int));
        }
        rows.append(csv_row(&results[i]).as_str());
        rows.append("\n");
        i = i + 1;
    }
    assert(results@.take(n as int) =~= results@);
    let mut text = String::from_str(csv_header());
    text.append("\n");
    text.append(rows.as_str());
    text
}

} // verus!
