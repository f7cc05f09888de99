use crate::highlight::{spans_view, SpanView, StyledSpan};
use vstd::prelude::*;

verus! {

/// The decimal digits, `'0'` to `'9'`.
pub open spec fn digit_chars() -> Seq<char> {
    seq!['0', '1', '2', '3', '4', '5', '6', '7', '8', '9']
}

/// The decimal writing of `n`, without leading zeros.
pub open spec fn decimal(n: nat) -> Seq<char>
    decreases n,
{
    if n < 10 {
        seq![digit_chars()[n as int]]
    } else {
        decimal(n / 10) + seq![digit_chars()[(n % 10) as int]]
    }
}

/// Writes `n` in decimal.
pub fn decimal_string(n: u64) -> (r: String)
    ensures
        r@ == decimal(n as nat),
    decreases n,
{
    let digits = "0123456789";
    proof {
        reveal_strlit("0123456789");
        assert(digits@ =~= digit_chars());
    }
    let d = (n % 10) as usize;
    let last = digits.substring_char(d, d + 1);
    assert(last@ =~= seq![digit_chars()[d as int]]);
    if n < 10 {
        last.to_owned()
    } else {
        let mut r = decimal_string(n / 10);
        r.append(last);
        r
    }
}

/// The escape sequence that sets the foreground to a 24-bit colour.
pub open spec fn color_escape(r: u8, g: u8, b: u8) -> Seq<char> {
    seq!['\x1b', '[', '3', '8', ';', '2', ';'] + decimal(r as nat) + seq![';'] + decimal(g as nat)
        + seq![';'] + decimal(b as nat) + seq!['m']
}

/// The escape sequence that puts the terminal's colours back to their defaults.
pub open spec fn reset_escape() -> Seq<char> {
    seq!['\x1b', '[', '0', 'm']
}

/// Each span as its colour's escape followed by its text.
pub open spec fn painted(spans: Seq<SpanView>) -> Seq<char>
    decreases spans.len(),
{
    if spans.len() == 0 {
        Seq::empty()
    } else {
        let s = spans.last();
        painted(spans.drop_last()) + color_escape(s.0, s.1, s.2) + s.3
    }
}

/// The terminal text of a sequence of spans: the painted spans, then one reset
/// where any colour was set.
pub open spec fn escaped(spans: Seq<SpanView>) -> Seq<char> {
    if spans.len() == 0 {
        Seq::empty()
    } else {
        painted(spans) + reset_escape()
    }
}

/// Appends the escape that sets the foreground to `(r, g, b)`.
fn push_color(out: &mut String, r: u8, g: u8, b: u8)
    ensures
        final(out)@ == old(out)@ + color_escape(r, g, b),
{
    proof {
        reveal_strlit("\x1b[38;2;");
        reveal_strlit(";");
        reveal_strlit("m");
    }
    out.append("\x1b[38;2;");
    out.append(decimal_string(r as u64).as_str());
    out.append(";");
    out.append(decimal_string(g as u64).as_str());
    out.append(";");
    out.append(decimal_string(b as u64).as_str());
    out.append("m");
    assert(final(out)@ =~= old(out)@ + color_escape(r, g, b));
}

/// Writes spans as 24-bit terminal colour escapes, each followed by its text,
/// and ends with one reset if any span was written.
pub fn render_spans(spans: &Vec<StyledSpan>) -> (r: String)
    ensures
        r@ == escaped(spans_view(spans@)),
{
    let mut out = String::new();
    let mut i: usize = 0;
    while i < spans.len()
        invariant
            i <= spans.len(),
            out@ == painted(spans_view(spans@).take(i as int)),
        decreases spans.len() - i,
    {
        let ghost prev = out@;
        let span = &spans[i];
        push_color(&mut out, span.color.r, span.color.g, span.color.b);
        out.append(span.text.as_str());
        proof {
            let v = spans_view(spans@);
            assert(v.take(i + 1).drop_last() =~= v.take(i as int));
            assert(v.take(i + 1).last() == span.view());
        }
        i = i + 1;
    }
    assert(spans_view(spans@).take(i as int) =~= spans_view(spans@));
    if spans.len() > 0 {
        proof {
            reveal_strlit("\x1b[0m");
            assert("\x1b[0m"@ =~= reset_escape());
        }
        out.append("\x1b[0m");
    }
    out
}

} // verus!
