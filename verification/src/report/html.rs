//! Text in an HTML report.

use vstd::prelude::*;
use vstd::string::*;
use crate::analyzer::Verdict;
use crate::text::{decimal_digits, lines, push_decimal};

verus! {

/// What stands for a character in HTML: an entity for `&`, `<`, `>` and the
/// quotation mark, and the character itself for any other.
pub open spec fn html_char(c: char) -> Seq<char> {
    if c == '&' {
        "&amp;"@
    } else if c == '<' {
        "&lt;"@
    } else if c == '>' {
        "&gt;"@
    } else if c == '"' {
        "&quot;"@
    } else {
        seq![c]
    }
}

/// The text with each character replaced by what stands for it in HTML.
pub open spec fn html_text(s: Seq<char>) -> Seq<char>
    decreases s.len(),
{
    if s.len() == 0 {
        Seq::empty()
    } else {
        html_text(s.drop_last()) + html_char(s.last())
    }
}

/// Escape a text for an HTML page.
pub fn html_escape(s: &str) -> (r: String)
    ensures
        r@ == html_text(s@),
{
    let n = s.unicode_len();
    let mut out = String::new();
    let mut i: usize = 0;
    assert(out@ =~= html_text(s@.take(0)));
    while i < n
        invariant
            n == s@.len(),
            i <= n,
            out@ == html_text(s@.take(i as int)),
        decreases n - i,
    {
        let c = s.get_char(i);
        proof {
            assert(s@.take(i + 1).drop_last() =~= s@.take(i as int));
        }
        if c == '&' {
            out.append("&amp;");
        } else if c == '<' {
            out.append("&lt;");
        } else if c == '>' {
            out.append("&gt;");
        } else if c == '"' {
            out.append("&quot;");
        } else {
            out.push(c);
        }
        i = i + 1;
        assert(out@ =~= html_text(s@.take(i as int)));
    }
    proof {
        assert(s@.take(n as int) =~= s@);
    }
    out
}


/// The style class of a verdict.
pub open spec fn verdict_class_of(verdict: Verdict) -> Seq<char> {
    match verdict {
        Verdict::Okay => "ok"@,
        Verdict::Suspect => "suspect"@,
        Verdict::Transcode => "transcode"@,
        Verdict::Error => "error"@,
    }
}

/// The style class of a combined score: high from 65 on, medium from 35 on,
/// and low below.
pub open spec fn score_class_of(score: u32) -> Seq<char> {
    if score >= 65 {
        "high"@
    } else if score >= 35 {
        "medium"@
    } else {
        "low"@
    }
}

/// The flags of a result in a table cell: each in an element of its own,
/// and a dash where there are none.
pub open spec fn flags_cell(flags: Seq<Seq<char>>) -> Seq<char> {
    if flags.len() == 0 {
        "<span class=\"dim\">\u{2014}</span>"@
    } else {
        flag_spans(flags)
    }
}

/// Each flag in an element of its own, one behind the other.
pub open spec fn flag_spans(flags: Seq<Seq<char>>) -> Seq<char>
    decreases flags.len(),
{
    if flags.len() == 0 {
        Seq::empty()
    } else {
        flag_spans(flags.drop_last()) + "<span class=\"flag\">"@ + html_text(flags.last())
            + "</span>"@
    }
}

/// The lowpass behind the encoder's name: in brackets, and nothing where
/// there is none.
pub open spec fn lowpass_note(lowpass: Option<u32>) -> Seq<char> {
    match lowpass {
        Some(hz) => " ("@ + decimal_digits(hz as nat) + "Hz)"@,
        None => Seq::empty(),
    }
}

/// The style class of a verdict.
pub fn verdict_class(verdict: Verdict) -> (r: &'static str)
    ensures
        r@ == verdict_class_of(verdict),
{
    match verdict {
        Verdict::Okay => "ok",
        Verdict::Suspect => "suspect",
        Verdict::Transcode => "transcode",
        Verdict::Error => "error",
    }
}

/// The style class of a combined score.
pub fn score_class(score: u32) -> (r: &'static str)
    ensures
        r@ == score_class_of(score),
{
    if score >= 65 {
        "high"
    } else if score >= 35 {
        "medium"
    } else {
        "low"
    }
}

/// The flags of a result as the content of a table cell.
pub fn flags_html(flags: &Vec<String>) -> (r: String)
    ensures
        r@ == flags_cell(lines(flags@)),
{
    let n = flags.len();
    if n == 0 {
        return String::from_str("<span class=\"dim\">\u{2014}</span>");
    }
    let mut out = String::new();
    let mut i: usize = 0;
    assert(out@ =~= flag_spans(lines(flags@).take(0)));
    while i < n
        invariant
            n == flags@.len(),
            i <= n,
            out@ == flag_spans(lines(flags@).take(i as int)),
        decreases n - i,
    {
        proof {
            assert(lines(flags@).take(i + 1).drop_last() =~= lines(flags@).take(i as int));
            assert(lines(flags@).take(i + 1).last() == flags@[i as int]@);
        }
        out.append("<span class=\"flag\">");
        out.append(html_escape(flags[i].as_str()).as_str());
        out.append("</span>");
        i = i + 1;
    }
    assert(lines(flags@).take(n as int) =~= lines(flags@));
    out
}

/// The lowpass as it stands behind the encoder's name.
pub fn lowpass_info(lowpass: Option<u32>) -> (r: String)
    ensures
        r@ == lowpass_note(lowpass),
{
    let mut out = String::new();
    if let Some(hz) = lowpass {
        out.append(" (");
        push_decimal(&mut out, hz as u64);
        out.append("Hz)");
        assert(out@ =~= lowpass_note(lowpass));
    }
    out
}

} // verus!
