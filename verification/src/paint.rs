//! Painting spans with the `colored` crate.
use vstd::prelude::*;

use crate::text::{line_outcome, line_text, pad_text, painted_as, span_outcome, Line, Span, Style};

verus! {

/// Calls `colored::Colorize::bold` on `text` and renders the result with
/// `to_string`. The crate prints the bare text where colours are off (not a
/// terminal, `NO_COLOR`, ...), else the text between `ESC[1m` and `ESC[0m`,
/// with the bold escape repeated after each reset sequence inside the text.
/// Which of the two happens depends on the environment, so no call is tied
/// to one of them.
#[verifier::external_body]
fn paint_bold(text: &str) -> (res: String)
    ensures
        painted_as(Style::Bold, text@, res@),
{
    colored::Colorize::bold(text).to_string()
}

/// Calls `colored::Colorize::dimmed` on `text` and renders it with
/// `to_string`: the bare text where colours are off, else the text between
/// `ESC[2m` and `ESC[0m` (the dim escape repeated after inner resets).
#[verifier::external_body]
fn paint_dimmed(text: &str) -> (res: String)
    ensures
        painted_as(Style::Dimmed, text@, res@),
{
    colored::Colorize::dimmed(text).to_string()
}

/// Calls `colored::Colorize::red` on `text` and renders it with `to_string`:
/// the bare text where colours are off, else the text between `ESC[31m` and
/// `ESC[0m` (the red escape repeated after inner resets).
#[verifier::external_body]
fn paint_red(text: &str) -> (res: String)
    ensures
        painted_as(Style::Red, text@, res@),
{
    colored::Colorize::red(text).to_string()
}

/// Calls `colored::Colorize::green` on `text` and renders it with
/// `to_string`: the bare text where colours are off, else the text between
/// `ESC[32m` and `ESC[0m` (the green escape repeated after inner resets).
#[verifier::external_body]
fn paint_green(text: &str) -> (res: String)
    ensures
        painted_as(Style::Green, text@, res@),
{
    colored::Colorize::green(text).to_string()
}

/// Calls `colored::Colorize::yellow` on `text` and renders it with
/// `to_string`: the bare text where colours are off, else the text between
/// `ESC[33m` and `ESC[0m` (the yellow escape repeated after inner resets).
#[verifier::external_body]
fn paint_yellow(text: &str) -> (res: String)
    ensures
        painted_as(Style::Yellow, text@, res@),
{
    colored::Colorize::yellow(text).to_string()
}

/// Calls `colored::Colorize::cyan` on `text` and renders it with
/// `to_string`: the bare text where colours are off, else the text between
/// `ESC[36m` and `ESC[0m` (the cyan escape repeated after inner resets).
#[verifier::external_body]
fn paint_cyan(text: &str) -> (res: String)
    ensures
        painted_as(Style::Cyan, text@, res@),
{
    colored::Colorize::cyan(text).to_string()
}

/// `text` in `style`, as the colouring library renders it.
pub fn paint(text: &str, style: Style) -> (res: String)
    ensures
        style == Style::Plain ==> res@ == text@,
        style != Style::Plain ==> painted_as(style, text@, res@),
{
    match style {
        Style::Plain => {
            let r = text.to_string();
            proof { vstd::string::to_string_from_display_ensures_for_str(text, r); }
            r
        },
        Style::Bold => paint_bold(text),
        Style::Dimmed => paint_dimmed(text),
        Style::Red => paint_red(text),
        Style::Green => paint_green(text),
        Style::Yellow => paint_yellow(text),
        Style::Cyan => paint_cyan(text),
    }
}

/// What one span prints as.
pub fn paint_span(sp: &Span) -> (res: String)
    ensures
        exists|coloured: bool| res@ == span_outcome(sp@, coloured),
{
    let p = paint(sp.text.as_str(), sp.style);
    let res = pad_text(p.as_str(), sp.width);
    proof {
        if p@ == sp.text@ {
            assert(res@ == span_outcome(sp@, false));
        } else {
            assert(res@ == span_outcome(sp@, true));
        }
    }
    res
}

impl Line {
    /// The line as printed: every span painted, the fields padded.
    pub fn paint(&self) -> (res: String)
        ensures
            exists|coloured: Seq<bool>|
                coloured.len() == self@.len() && res@ == line_outcome(self@, coloured),
    {
        let mut res = String::new();
        let ghost mut coloured: Seq<bool> = seq![];
        let n = self.spans.len();
        let mut i: usize = 0;
        while i < n
            invariant
                n == self.spans.len(),
                i <= n,
                coloured.len() == i,
                res@ == line_outcome(self@.take(i as int), coloured),
            decreases n - i,
        {
            let piece = paint_span(&self.spans[i]);
            let ghost c = choose|c: bool| piece@ == span_outcome(self.spans[i as int]@, c);
            res.append(piece.as_str());
            proof {
                let next = self@.take(i + 1);
                assert(next.drop_last() =~= self@.take(i as int));
                assert(coloured.push(c).drop_last() =~= coloured);
                coloured = coloured.push(c);
            }
            i = i + 1;
        }
        assert(self@.take(n as int) =~= self@);
        res
    }

    /// The line with colours off.
    pub fn plain_text(&self) -> (res: String)
        ensures
            res@ == line_text(self@),
    {
        let mut res = String::new();
        let n = self.spans.len();
        let mut i: usize = 0;
        while i < n
            invariant
                n == self.spans.len(),
                i <= n,
                res@ == line_text(self@.take(i as int)),
            decreases n - i,
        {
            let piece = pad_text(self.spans[i].text.as_str(), self.spans[i].width);
            res.append(piece.as_str());
            proof {
                assert(self@.take(i + 1).drop_last() =~= self@.take(i as int));
            }
            i = i + 1;
        }
        assert(self@.take(n as int) =~= self@);
        res
    }
}

} // verus!
