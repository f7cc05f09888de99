use crate::classify::{classified, classify, headers_view, ContentTypeHint, Header};
use crate::escape::{decimal, decimal_string, escaped, render_spans};
use crate::highlight::{highlight, highlighted, Grammars, Language};
use crate::request::Error;
use vstd::prelude::*;
use vstd::utf8::{decode_utf8, valid_utf8};

verus! {

/// A response as received: protocol version, status code and reason, headers
/// in wire order (duplicates kept) and the body's bytes.
#[derive(Debug, Clone)]
pub struct Response {
    pub version: String,
    pub status: u16,
    pub reason: String,
    pub headers: Vec<Header>,
    pub body: Vec<u8>,
}

/// How a piece of output is coloured.
#[derive(Debug, Clone, Copy, PartialEq, Eq)]
pub enum Paint {
    /// The status line's accent colour.
    Status,
    /// The header names' accent colour.
    HeaderName,
    /// No colour of its own: written as it is.
    Plain,
}

/// A piece of terminal output and how it is coloured.
#[derive(Debug, Clone)]
pub struct Piece {
    pub paint: Paint,
    pub text: String,
}

impl Piece {
    pub open spec fn view(&self) -> (Paint, Seq<char>) {
        (self.paint, self.text@)
    }
}

pub open spec fn pieces_view(v: Seq<Piece>) -> Seq<(Paint, Seq<char>)> {
    v.map_values(|p: Piece| p.view())
}

/// `<version> <status code> <reason>`.
pub open spec fn status_line(version: Seq<char>, status: u16, reason: Seq<char>) -> Seq<char> {
    version + seq![' '] + decimal(status as nat) + seq![' '] + reason
}

/// Each header as its name, then `: <value>` and a line end.
pub open spec fn header_pieces(headers: Seq<(Seq<char>, Seq<char>)>) -> Seq<(Paint, Seq<char>)>
    decreases headers.len(),
{
    if headers.len() == 0 {
        Seq::empty()
    } else {
        let h = headers.last();
        header_pieces(headers.drop_last()) + seq![
            (Paint::HeaderName, h.0),
            (Paint::Plain, seq![':', ' '] + h.1 + seq!['\n']),
        ]
    }
}

/// The status line and a blank line, the headers, and a blank line.
pub open spec fn head_pieces(
    version: Seq<char>,
    status: u16,
    reason: Seq<char>,
    headers: Seq<(Seq<char>, Seq<char>)>,
) -> Seq<(Paint, Seq<char>)> {
    seq![(Paint::Status, status_line(version, status, reason)), (Paint::Plain, seq!['\n', '\n'])]
        + header_pieces(headers) + seq![(Paint::Plain, seq!['\n'])]
}

/// How a decoded body is written: highlighted for JSON and HTML, as it is
/// with a line end otherwise.
pub open spec fn body_output(text: Seq<char>, hint: ContentTypeHint) -> Seq<char> {
    match hint {
        ContentTypeHint::Json => escaped(highlighted(text, Language::Json)),
        ContentTypeHint::Html => escaped(highlighted(text, Language::Html)),
        ContentTypeHint::Plain => text + seq!['\n'],
    }
}

fn piece(paint: Paint, text: String) -> (r: Piece)
    ensures
        r.view() == (paint, text@),
{
    Piece { paint, text }
}

/// The status line, its blank line, the headers in order and the blank line
/// after them, each with its colouring.
pub fn render_head(resp: &Response) -> (r: Vec<Piece>)
    ensures
        pieces_view(r@) == head_pieces(
            resp.version@,
            resp.status,
            resp.reason@,
            headers_view(resp.headers@),
        ),
{
    proof {
        reveal_strlit(" ");
        reveal_strlit("\n\n");
        reveal_strlit("\n");
        reveal_strlit(": ");
    }
    let mut status = resp.version.clone();
    status.append(" ");
    status.append(decimal_string(resp.status as u64).as_str());
    status.append(" ");
    status.append(resp.reason.as_str());
    assert(status@ =~= status_line(resp.version@, resp.status, resp.reason@));
    assert("\n\n"@ =~= seq!['\n', '\n']);
    let mut out: Vec<Piece> = Vec::new();
    out.push(piece(Paint::Status, status));
    out.push(piece(Paint::Plain, "\n\n".to_owned()));
    let ghost start = pieces_view(out@);
    assert(start =~~= seq![
        (Paint::Status, status_line(resp.version@, resp.status, resp.reason@)),
        (Paint::Plain, seq!['\n', '\n']),
    ]);
    let mut i: usize = 0;
    while i < resp.headers.len()
        invariant
            i <= resp.headers.len(),
            pieces_view(out@) == start + header_pieces(headers_view(resp.headers@).take(i as int)),
        decreases resp.headers.len() - i,
    {
        let h = &resp.headers[i];
        proof {
            reveal_strlit(": ");
            reveal_strlit("\n");
        }
        let mut rest = ": ".to_owned();
        rest.append(h.value.as_str());
        rest.append("\n");
        assert(rest@ =~= seq![':', ' '] + h.value@ + seq!['\n']);
        let ghost prev = pieces_view(out@);
        out.push(piece(Paint::HeaderName, h.name.clone()));
        out.push(piece(Paint::Plain, rest));
        proof {
            let hv = headers_view(resp.headers@);
            assert(hv.take(i + 1).drop_last() =~= hv.take(i as int));
            assert(hv.take(i + 1).last() == h.view());
            let tail = seq![(Paint::HeaderName, h.name@), (Paint::Plain, rest@)];
            assert(header_pieces(hv.take(i + 1)) == header_pieces(hv.take(i as int)) + tail);
            assert(pieces_view(out@) =~= prev + tail);
            assert(pieces_view(out@) =~= start + header_pieces(hv.take(i + 1)));
        }
        i = i + 1;
    }
    out.push(piece(Paint::Plain, "\n".to_owned()));
    assert(headers_view(resp.headers@).take(i as int) =~= headers_view(resp.headers@));
    assert("\n"@ =~= seq!['\n']);
    assert(pieces_view(out@) =~~= head_pieces(
        resp.version@,
        resp.status,
        resp.reason@,
        headers_view(resp.headers@),
    ));
    out
}

/// Relies on `std::str::from_utf8`: it succeeds exactly on valid UTF-8, and
/// gives the text that the bytes encode.
#[verifier::external_body]
fn decode_text(bytes: &Vec<u8>) -> (r: Option<String>)
    ensures
        r is Some == valid_utf8(bytes@),
        r matches Some(s) ==> s@ == decode_utf8(bytes@),
{
    std::str::from_utf8(bytes.as_slice()).ok().map(|s| s.to_string())
}

fn plain_text(text: &str) -> (r: String)
    ensures
        r@ == text@ + seq!['\n'],
{
    proof {
        reveal_strlit("\n");
    }
    let mut r = text.to_owned();
    r.append("\n");
    r
}

/// Writes body text as its hint asks: highlighted for JSON and HTML, as it
/// is with a line end otherwise.
pub fn render_text(grammars: &Grammars, text: &str, hint: ContentTypeHint) -> (r: String)
    ensures
        r@ == body_output(text@, hint),
{
    let lang = match hint {
        ContentTypeHint::Json => Language::Json,
        ContentTypeHint::Html => Language::Html,
        ContentTypeHint::Plain => return plain_text(text),
    };
    render_spans(&highlight(grammars, text, lang))
}

/// Decodes the body as UTF-8 and writes it as the response's headers ask;
/// a body that is not valid UTF-8 is an error.
pub fn render_body(grammars: &Grammars, resp: &Response) -> (r: Result<String, Error>)
    ensures
        r is Ok <==> valid_utf8(resp.body@),
        r matches Ok(s) ==> s@ == body_output(
            decode_utf8(resp.body@),
            classified(headers_view(resp.headers@)),
        ),
        r matches Err(e) ==> e == Error::BodyDecode,
{
    let hint = classify(&resp.headers);
    match decode_text(&resp.body) {
        Some(text) => Ok(render_text(grammars, text.as_str(), hint)),
        None => Err(Error::BodyDecode),
    }
}

} // verus!
