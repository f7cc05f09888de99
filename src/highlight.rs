use syntect::easy::HighlightLines;
use syntect::highlighting::{Theme, ThemeSet};
use syntect::parsing::{SyntaxReference, SyntaxSet};
use syntect::util::LinesWithEndings;
use vstd::prelude::*;

verus! {

#[verifier::external_type_specification]
#[verifier::external_body]
pub struct ExSyntaxSet(SyntaxSet);

#[verifier::external_type_specification]
#[verifier::external_body]
pub struct ExSyntaxReference(SyntaxReference);

#[verifier::external_type_specification]
#[verifier::external_body]
pub struct ExTheme(Theme);

#[verifier::external_type_specification]
#[verifier::external_body]
pub struct ExHighlightLines<'a>(HighlightLines<'a>);

/// The name of the built-in colour theme that bodies are highlighted with.
pub const THEME_NAME: &'static str = "base16-ocean.dark";

/// A foreground colour.
#[derive(Debug, Clone, Copy, PartialEq, Eq)]
pub struct Rgb {
    pub r: u8,
    pub g: u8,
    pub b: u8,
}

/// A piece of body text and the colour it is drawn in.
#[derive(Debug, Clone)]
pub struct StyledSpan {
    pub color: Rgb,
    pub text: String,
}

/// A span as plain values: red, green, blue and the text.
pub type SpanView = (u8, u8, u8, Seq<char>);

impl StyledSpan {
    pub open spec fn view(&self) -> SpanView {
        (self.color.r, self.color.g, self.color.b, self.text@)
    }
}

pub open spec fn spans_view(v: Seq<StyledSpan>) -> Seq<SpanView> {
    v.map_values(|s: StyledSpan| s.view())
}

pub open spec fn opt_spans_view(o: Option<Vec<StyledSpan>>) -> Option<Seq<SpanView>> {
    match o {
        Some(v) => Some(spans_view(v@)),
        None => None,
    }
}

/// The text that a sequence of spans covers, in order.
pub open spec fn span_texts(spans: Seq<SpanView>) -> Seq<char>
    decreases spans.len(),
{
    if spans.len() == 0 {
        Seq::empty()
    } else {
        span_texts(spans.drop_last()) + spans.last().3
    }
}

/// The languages that bodies are highlighted in.
#[derive(Debug, Clone, Copy, PartialEq, Eq)]
pub enum Language {
    Json,
    Html,
}

impl Language {
    /// The file extension by which the language's grammar is found.
    pub open spec fn extension_spec(self) -> Seq<char> {
        match self {
            Language::Json => seq!['j', 's', 'o', 'n'],
            Language::Html => seq!['h', 't', 'm', 'l'],
        }
    }

    pub fn extension(&self) -> (r: &'static str)
        ensures
            r@ == self.extension_spec(),
    {
        match self {
            Language::Json => {
                proof {
                    reveal_strlit("json");
                }
                "json"
            },
            Language::Html => {
                proof {
                    reveal_strlit("html");
                }
                "html"
            },
        }
    }
}

/// Length of the first line of `s`, its `\n` included.
pub open spec fn first_line_len(s: Seq<char>) -> nat
    decreases s.len(),
{
    if s.len() == 0 {
        0
    } else if s[0] == '\n' {
        1
    } else {
        1 + first_line_len(s.drop_first())
    }
}

/// The lines of `s`, each with the `\n` that ends it; the last one may lack it.
pub open spec fn lines_of(s: Seq<char>) -> Seq<Seq<char>>
    decreases s.len(),
{
    if s.len() == 0 {
        Seq::empty()
    } else {
        let k = first_line_len(s);
        if 0 < k <= s.len() {
            seq![s.take(k as int)] + lines_of(s.skip(k as int))
        } else {
            seq![s]
        }
    }
}

/// Whether the built-in grammars hold one for this file extension.
pub uninterp spec fn has_grammar(extension: Seq<char>) -> bool;

/// Whether syntect's built-in themes hold one of this name.
pub uninterp spec fn has_theme(name: Seq<char>) -> bool;

/// The spans that the built-in grammar for `extension` and the built-in theme
/// give to `line`, after the lines `before` went, one by one and in order,
/// through the same highlighter; `None` where the grammar fails on the line.
pub uninterp spec fn line_styles(extension: Seq<char>, before: Seq<Seq<char>>, line: Seq<char>) -> Option<Seq<SpanView>>;

/// The colour of text that no grammar could style: the built-in theme's
/// foreground.
pub open spec fn fallback_color() -> (u8, u8, u8) {
    (192, 197, 206)
}

/// `rest` as one span in the fallback colour.
pub open spec fn fallback_span(rest: Seq<char>) -> SpanView {
    (fallback_color().0, fallback_color().1, fallback_color().2, rest)
}

/// The spans of `lines`, highlighted one after the other after the lines
/// `before`. From the first line on which the grammar fails, the rest of the
/// text is one span in the fallback colour.
pub open spec fn styled_lines(extension: Seq<char>, lines: Seq<Seq<char>>, before: Seq<Seq<char>>) -> Seq<SpanView>
    decreases lines.len(),
{
    if lines.len() == 0 {
        Seq::empty()
    } else {
        match line_styles(extension, before, lines[0]) {
            Some(a) => a + styled_lines(extension, lines.drop_first(), before.push(lines[0])),
            None => seq![fallback_span(lines.flatten())],
        }
    }
}

/// What highlighting `text` in `lang` gives. Where no grammar is built in for
/// the language, a text that is not empty is one span in the fallback colour.
pub open spec fn highlighted(text: Seq<char>, lang: Language) -> Seq<SpanView> {
    if has_grammar(lang.extension_spec()) {
        styled_lines(lang.extension_spec(), lines_of(text), Seq::empty())
    } else if text.len() == 0 {
        Seq::empty()
    } else {
        seq![fallback_span(text)]
    }
}

/// The grammars and the colour theme built into syntect, loaded once and
/// shared by every highlighting call. Only `load` makes one.
pub struct Grammars {
    syntaxes: SyntaxSet,
    theme: Theme,
}

/// Relies on syntect's `SyntaxSet::load_defaults_newlines`: the grammars built
/// into syntect, for lines that keep their `\n`.
#[verifier::external_body]
fn default_syntaxes() -> SyntaxSet {
    SyntaxSet::load_defaults_newlines()
}

/// Relies on syntect's `ThemeSet::load_defaults`: the built-in theme of that
/// name, if there is one. The built-in set is fixed, so whether there is one
/// depends on the name alone.
#[verifier::external_body]
fn default_theme(name: &str) -> (r: Option<Theme>)
    ensures
        r is Some == has_theme(name@),
{
    ThemeSet::load_defaults().themes.remove(name)
}

/// Relies on syntect's `LinesWithEndings`: it cuts after each `\n` and keeps
/// the rest as a last line.
#[verifier::external_body]
fn split_lines(s: &str) -> (r: Vec<&str>)
    ensures
        r@.map_values(|l: &str| l@) == lines_of(s@),
{
    LinesWithEndings::from(s).collect()
}

/// A highlighter for one text: the built-in grammars it reads, the extension
/// by which its grammar was found and the lines it has been fed so far. Only
/// `start_highlighter` and `highlight_line` make or change one.
struct LineHighlighter<'a> {
    lines: HighlightLines<'a>,
    grammars: &'a Grammars,
    extension: Ghost<Seq<char>>,
    fed: Ghost<Seq<Seq<char>>>,
}

/// Relies on syntect's `SyntaxSet::find_syntax_by_extension`, on the built-in
/// grammars, and `HighlightLines::new`: a highlighter at the start of a text,
/// with the built-in theme, where a built-in grammar has that extension.
#[verifier::external_body]
fn start_highlighter<'a>(grammars: &'a Grammars, extension: &str) -> (r: Option<LineHighlighter<'a>>)
    ensures
        r is Some == has_grammar(extension@),
        r matches Some(h) ==> h.extension@ == extension@ && h.fed@ == Seq::<Seq<char>>::empty(),
{
    let syntax = grammars.syntaxes.find_syntax_by_extension(extension)?;
    Some(LineHighlighter {
        lines: HighlightLines::new(syntax, &grammars.theme),
        grammars,
        extension: Ghost(extension@),
        fed: Ghost(Seq::empty()),
    })
}

/// Relies on syntect's `HighlightLines::highlight_line`: with the built-in
/// grammars and theme, the styles of a line depend on the grammar and on the
/// lines fed before it; the pieces it returns cover the line in order.
#[verifier::external_body]
fn highlight_line(h: &mut LineHighlighter, line: &str) -> (r: Option<Vec<StyledSpan>>)
    ensures
        final(h).extension == old(h).extension,
        r is Some ==> final(h).fed@ == old(h).fed@.push(line@),
        opt_spans_view(r) == line_styles(old(h).extension@, old(h).fed@, line@),
        r matches Some(v) ==> span_texts(spans_view(v@)) == line@,
{
    let pieces = h.lines.highlight_line(line, &h.grammars.syntaxes).ok()?;
    let spans = pieces.into_iter().map(|(style, text)| StyledSpan {
        color: Rgb { r: style.foreground.r, g: style.foreground.g, b: style.foreground.b },
        text: text.to_string(),
    });
    h.fed = Ghost(h.fed@.push(line@));
    Some(spans.collect())
}

impl Grammars {
    /// Loads the built-in grammars and the built-in theme; `None` exactly when
    /// the theme is missing from syntect's defaults.
    pub fn load() -> (r: Option<Grammars>)
        ensures
            r is Some == has_theme(THEME_NAME@),
    {
        let theme = default_theme(THEME_NAME);
        match theme {
            Some(theme) => Some(Grammars { syntaxes: default_syntaxes(), theme }),
            None => None,
        }
    }
}

fn fallback(text: &str, from: usize, to: usize) -> (r: StyledSpan)
    requires
        from <= to <= text@.len(),
    ensures
        r.view() == fallback_span(text@.subrange(from as int, to as int)),
{
    let rest = text.substring_char(from, to);
    StyledSpan { color: Rgb { r: 192, g: 197, b: 206 }, text: rest.to_owned() }
}

/// The lines of a text put back together give the text.
pub proof fn lemma_lines_flatten(s: Seq<char>)
    ensures
        lines_of(s).flatten() == s,
    decreases s.len(),
{
    if s.len() > 0 {
        lemma_first_line_len_bounds(s);
        let k = first_line_len(s);
        let rest = lines_of(s.skip(k as int));
        lemma_lines_flatten(s.skip(k as int));
        let l = seq![s.take(k as int)] + rest;
        assert(l.drop_first() =~= rest);
        assert(s =~= s.take(k as int) + s.skip(k as int));
    }
}

proof fn lemma_first_line_len_bounds(s: Seq<char>)
    requires
        s.len() > 0,
    ensures
        0 < first_line_len(s) <= s.len(),
    decreases s.len(),
{
    if s[0] != '\n' {
        if s.len() > 1 {
            lemma_first_line_len_bounds(s.drop_first());
        } else {
            assert(first_line_len(s.drop_first()) == 0);
        }
    }
}

proof fn lemma_span_texts_append(a: Seq<SpanView>, b: Seq<SpanView>)
    ensures
        span_texts(a + b) == span_texts(a) + span_texts(b),
    decreases b.len(),
{
    if b.len() > 0 {
        lemma_span_texts_append(a, b.drop_last());
        assert((a + b).drop_last() =~= a + b.drop_last());
        assert((a + b).last() == b.last());
    } else {
        assert(a + b =~= a);
    }
}


/// Highlights `text` line by line with the built-in grammar for `lang` and
/// the built-in theme. From a line on which the grammar fails (or for the
/// whole text, where there is no grammar) the rest is one span in the
/// fallback colour. The spans always cover the text exactly, in order.
pub fn highlight(grammars: &Grammars, text: &str, lang: Language) -> (r: Vec<StyledSpan>)
    ensures
        spans_view(r@) == highlighted(text@, lang),
        span_texts(spans_view(r@)) == text@,
{
    let total = text.unicode_len();
    let ext = lang.extension();
    let mut h = match start_highlighter(grammars, ext) {
        Some(h) => h,
        None => {
            let mut out: Vec<StyledSpan> = Vec::new();
            if total > 0 {
                out.push(fallback(text, 0, total));
                proof {
                    assert(text@.subrange(0, total as int) =~= text@);
                    assert(spans_view(out@) =~= seq![fallback_span(text@)]);
                    assert(spans_view(out@).drop_last() =~= Seq::<SpanView>::empty());
                    let v = spans_view(out@);
                    assert(v.last().3 == text@);
                    assert(span_texts(v.drop_last()) == Seq::<char>::empty());
                    assert(span_texts(v) == span_texts(v.drop_last()) + v.last().3);
                    assert(span_texts(v) =~= text@);
                }
            } else {
                assert(spans_view(out@) =~= Seq::<SpanView>::empty());
                assert(text@ =~= Seq::<char>::empty());
            }
            return out;
        },
    };
    let lines = split_lines(text);
    let ghost ls = lines_of(text@);
    let ghost e = lang.extension_spec();
    proof {
        lemma_lines_flatten(text@);
        assert(ls.skip(0) =~= ls);
        assert(ls.take(0) =~= Seq::<Seq<char>>::empty());
    }
    let ghost mut done: Seq<char> = Seq::empty();
    let mut consumed: usize = 0;
    let mut out: Vec<StyledSpan> = Vec::new();
    let mut i: usize = 0;
    assert(spans_view(out@) + styled_lines(e, ls.skip(0), ls.take(0)) =~= styled_lines(e, ls, Seq::empty()));
    while i < lines.len()
        invariant
            ls == lines_of(text@),
            ls == lines@.map_values(|l: &str| l@),
            ls.flatten() == text@,
            total == text@.len(),
            i <= lines.len(),
            e == lang.extension_spec(),
            h.extension@ == e,
            has_grammar(e),
            h.fed@ == ls.take(i as int),
            styled_lines(e, ls, Seq::empty()) == spans_view(out@) + styled_lines(e, ls.skip(i as int), ls.take(i as int)),
            done + ls.skip(i as int).flatten() == text@,
            done.len() == consumed,
            span_texts(spans_view(out@)) == done,
        decreases lines.len() - i,
    {
        let line = lines[i];
        let ghost prev = spans_view(out@);
        let ghost rest = ls.skip(i as int);
        assert(rest[0] == line@);
        assert(rest.drop_first() =~= ls.skip(i + 1));
        assert(ls.take(i as int).push(line@) =~= ls.take(i + 1));
        assert(rest.flatten() == line@ + ls.skip(i + 1).flatten());
        match highlight_line(&mut h, line) {
            Some(spans) => {
                let mut spans = spans;
                let ghost a = spans_view(spans@);
                out.append(&mut spans);
                proof {
                    assert(spans_view(out@) =~= prev + a);
                    lemma_span_texts_append(prev, a);
                    assert(prev + (a + styled_lines(e, ls.skip(i + 1), ls.take(i + 1)))
                        =~= spans_view(out@) + styled_lines(e, ls.skip(i + 1), ls.take(i + 1)));
                    assert(done + line@ + ls.skip(i + 1).flatten() =~= done + (line@ + ls.skip(i + 1).flatten()));
                    done = done + line@;
                }
                consumed = consumed + line.unicode_len();
            },
            None => {
                proof {
                    assert(done + rest.flatten() == text@);
                    assert(text@.subrange(consumed as int, total as int) =~= rest.flatten());
                }
                out.push(fallback(text, consumed, total));
                proof {
                    let f = fallback_span(rest.flatten());
                    assert(spans_view(out@) =~= prev + seq![f]);
                    assert(spans_view(out@).drop_last() =~= prev);
                    assert(span_texts(spans_view(out@)) == done + rest.flatten());
                }
                return out;
            },
        }
        i = i + 1;
    }
    proof {
        assert(ls.skip(i as int) =~= Seq::<Seq<char>>::empty());
        assert(done =~= text@);
        assert(spans_view(out@) + Seq::<SpanView>::empty() =~= spans_view(out@));
    }
    out
}

} // verus!
