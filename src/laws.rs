use crate::classify::{classified, content_type_of, hint_of, same_char_ignoring_case, ContentTypeHint};
use crate::escape::escaped;
use crate::highlight::{highlighted, Language};
use crate::render::body_output;
use vstd::prelude::*;

verus! {

/// Classification is a function of the headers alone: equal header
/// collections get the same hint.
pub proof fn law_classify_deterministic(
    a: Seq<(Seq<char>, Seq<char>)>,
    b: Seq<(Seq<char>, Seq<char>)>,
)
    requires
        a == b,
    ensures
        classified(a) == classified(b),
{
}

/// A header collection without a `Content-Type` header is drawn plain, and so
/// is one whose media type is `text/plain`.
pub proof fn law_classify_fallback(headers: Seq<(Seq<char>, Seq<char>)>)
    ensures
        content_type_of(headers) is None ==> classified(headers) == ContentTypeHint::Plain,
        hint_of(Some("text/plain"@)) == ContentTypeHint::Plain,
{
    reveal_strlit("text/plain");
    reveal_strlit("application/json");
    reveal_strlit("text/html");
    assert(!same_char_ignoring_case("text/plain"@[0], "application/json"@[0]));
}

/// Highlighting is a function of the text and the language alone: the same
/// text in the same language gives the same spans and the same terminal text.
pub proof fn law_highlight_deterministic(t1: Seq<char>, t2: Seq<char>, lang: Language)
    requires
        t1 == t2,
    ensures
        highlighted(t1, lang) == highlighted(t2, lang),
        escaped(highlighted(t1, lang)) == escaped(highlighted(t2, lang)),
        body_output(t1, ContentTypeHint::Json) == body_output(t2, ContentTypeHint::Json),
        body_output(t1, ContentTypeHint::Html) == body_output(t2, ContentTypeHint::Html),
{
}

/// A body drawn plain is written as it is, followed by a line end: no escape
/// sequence is put into it.
pub proof fn law_plain_verbatim(text: Seq<char>)
    ensures
        body_output(text, ContentTypeHint::Plain) == text + seq!['\n'],
{
}

} // verus!
