use httpie::{
    build_get, build_post, classify, classify_media_type, decimal_string, eq_ignoring_case,
    highlight, media_part_of, merge_pairs, parse_body, parse_url, render_body, render_head, render_spans,
    render_text, Body, ContentTypeHint, Error, Grammars, Header, Language, Method, Paint,
    Response, Rgb, StyledSpan,
};

fn header(name: &str, value: &str) -> Header {
    Header { name: name.to_string(), value: value.to_string() }
}

fn body(key: &str, value: &str) -> Body {
    Body { key: key.to_string(), value: value.to_string() }
}

fn grammars() -> Grammars {
    Grammars::load().expect("built-in theme")
}

fn response(headers: Vec<Header>, bytes: &[u8]) -> Response {
    Response {
        version: "HTTP/1.1".to_string(),
        status: 200,
        reason: "OK".to_string(),
        headers,
        body: bytes.to_vec(),
    }
}

/// Removes every `ESC [ ... m` sequence.
fn strip_escapes(s: &str) -> String {
    let mut out = String::new();
    let mut in_escape = false;
    for c in s.chars() {
        if in_escape {
            if c == 'm' {
                in_escape = false;
            }
        } else if c == '\x1b' {
            in_escape = true;
        } else {
            out.push(c);
        }
    }
    out
}

fn joined(spans: &[StyledSpan]) -> String {
    spans.iter().map(|s| s.text.as_str()).collect()
}

#[test]
fn parse_body_splits_at_first_eq() {
    let b = parse_body("a=b=c").unwrap();
    assert_eq!(b.key, "a");
    assert_eq!(b.value, "b=c");
}

#[test]
fn parse_body_without_eq_is_an_error() {
    let e = parse_body("novalue").unwrap_err();
    assert_eq!(e, Error::ArgumentParse { token: "novalue".to_string() });
}

#[test]
fn parse_body_edges() {
    let b = parse_body("=x").unwrap();
    assert_eq!((b.key.as_str(), b.value.as_str()), ("", "x"));
    let b = parse_body("k=").unwrap();
    assert_eq!((b.key.as_str(), b.value.as_str()), ("k", ""));
    let b: Body = "name=José".parse().unwrap();
    assert_eq!((b.key.as_str(), b.value.as_str()), ("name", "José"));
    assert!(parse_body("").is_err());
}

#[test]
fn parse_url_accepts_absolute_urls_only() {
    assert_eq!(parse_url("https://example.com/a?b=c").unwrap(), "https://example.com/a?b=c");
    assert_eq!(
        parse_url("/relative/path").unwrap_err(),
        Error::UrlParse { url: "/relative/path".to_string() }
    );
    assert!(parse_url("not a url").is_err());
}

#[test]
fn merge_pairs_last_write_wins() {
    let merged = merge_pairs(&vec![body("x", "1"), body("x", "2")]);
    assert_eq!(merged.len(), 1);
    assert_eq!((merged[0].key.as_str(), merged[0].value.as_str()), ("x", "2"));
}

#[test]
fn merge_pairs_keeps_first_place() {
    let merged = merge_pairs(&vec![body("a", "1"), body("b", "2"), body("a", "3")]);
    let got: Vec<(&str, &str)> =
        merged.iter().map(|b| (b.key.as_str(), b.value.as_str())).collect();
    assert_eq!(got, vec![("a", "3"), ("b", "2")]);
    assert!(merge_pairs(&vec![]).is_empty());
}

#[test]
fn build_requests() {
    let g = build_get("https://example.com");
    assert_eq!(g.method, Method::Get);
    assert_eq!(g.url, "https://example.com");
    assert!(g.body.is_none());
    let p = build_post("https://example.com", &vec![body("x", "1"), body("x", "2")]);
    assert_eq!(p.method, Method::Post);
    let members = p.body.unwrap();
    assert_eq!(members.len(), 1);
    assert_eq!((members[0].key.as_str(), members[0].value.as_str()), ("x", "2"));
}

#[test]
fn classify_json_with_charset() {
    let headers = vec![header("content-type", "application/json; charset=utf-8")];
    assert_eq!(classify(&headers), ContentTypeHint::Json);
    assert_eq!(classify(&headers), classify(&headers));
}

#[test]
fn classify_matches_names_and_types_in_any_case() {
    assert_eq!(classify(&vec![header("Content-Type", "TEXT/HTML")]), ContentTypeHint::Html);
    assert_eq!(
        classify(&vec![header("x-other", "1"), header("CONTENT-TYPE", "Application/Json")]),
        ContentTypeHint::Json
    );
}

#[test]
fn classify_fallbacks() {
    assert_eq!(classify(&vec![]), ContentTypeHint::Plain);
    assert_eq!(classify(&vec![header("server", "x")]), ContentTypeHint::Plain);
    assert_eq!(classify(&vec![header("content-type", "text/plain")]), ContentTypeHint::Plain);
    assert_eq!(classify(&vec![header("content-type", "text/csv")]), ContentTypeHint::Plain);
    assert_eq!(classify(&vec![header("content-type", "not a mime")]), ContentTypeHint::Plain);
    assert_eq!(classify(&vec![header("content-type", "")]), ContentTypeHint::Plain);
}

#[test]
fn classify_uses_first_content_type() {
    let headers = vec![header("content-type", "text/html"), header("content-type", "application/json")];
    assert_eq!(classify(&headers), ContentTypeHint::Html);
}

#[test]
fn classify_media_type_exact() {
    assert_eq!(classify_media_type(Some("application/json")), ContentTypeHint::Json);
    assert_eq!(classify_media_type(Some("text/html")), ContentTypeHint::Html);
    assert_eq!(classify_media_type(Some("text/htm")), ContentTypeHint::Plain);
    assert_eq!(classify_media_type(Some("application/json; charset=utf-8")), ContentTypeHint::Plain);
    assert_eq!(classify_media_type(None), ContentTypeHint::Plain);
}

#[test]
fn eq_ignoring_case_ascii_only() {
    assert!(eq_ignoring_case("Content-Type", "content-type"));
    assert!(!eq_ignoring_case("content-type", "content-typ"));
    assert!(!eq_ignoring_case("[", "{"));
    assert!(!eq_ignoring_case("É", "é"));
}

#[test]
fn decimal_string_values() {
    assert_eq!(decimal_string(0), "0");
    assert_eq!(decimal_string(7), "7");
    assert_eq!(decimal_string(200), "200");
    assert_eq!(decimal_string(65535), "65535");
    assert_eq!(decimal_string(u64::MAX), "18446744073709551615");
}

#[test]
fn render_spans_formats_escapes() {
    assert_eq!(render_spans(&vec![]), "");
    let spans = vec![
        StyledSpan { color: Rgb { r: 1, g: 22, b: 255 }, text: "ab".to_string() },
        StyledSpan { color: Rgb { r: 0, g: 0, b: 0 }, text: "\n".to_string() },
    ];
    assert_eq!(render_spans(&spans), "\x1b[38;2;1;22;255mab\x1b[38;2;0;0;0m\n\x1b[0m");
}

#[test]
fn highlight_covers_text() {
    let g = grammars();
    for (text, lang) in [
        ("{\"a\":1}", Language::Json),
        ("{\n  \"a\": [1, 2],\n  \"b\": \"x\"\n}\n", Language::Json),
        ("<html><body class=\"x\">hi</body></html>\n<p>", Language::Html),
        ("", Language::Json),
        ("not json at all {", Language::Json),
    ] {
        let spans = highlight(&g, text, lang);
        assert_eq!(joined(&spans), text);
    }
}

#[test]
fn highlight_colours_json() {
    let g = grammars();
    let spans = highlight(&g, "{\"a\":1}", Language::Json);
    assert!(spans.len() > 1);
    let first = spans[0].color;
    assert!(spans.iter().any(|s| s.color != first));
}

#[test]
fn highlight_is_deterministic() {
    let g = grammars();
    let text = "{\"k\": [true, null, 1.5]}\n{\"k\": \"v\"}";
    let a = render_spans(&highlight(&g, text, Language::Json));
    let b = render_spans(&highlight(&g, text, Language::Json));
    assert_eq!(a, b);
    let g2 = grammars();
    let c = render_spans(&highlight(&g2, text, Language::Json));
    assert_eq!(a, c);
}

#[test]
fn end_to_end_get() {
    let g = grammars();
    let resp = response(vec![header("content-type", "application/json")], b"{\"a\":1}");
    let head = render_head(&resp);
    let got: Vec<(Paint, &str)> = head.iter().map(|p| (p.paint, p.text.as_str())).collect();
    assert_eq!(
        got,
        vec![
            (Paint::Status, "HTTP/1.1 200 OK"),
            (Paint::Plain, "\n\n"),
            (Paint::HeaderName, "content-type"),
            (Paint::Plain, ": application/json\n"),
            (Paint::Plain, "\n"),
        ]
    );
    let out = render_body(&g, &resp).unwrap();
    assert!(out.starts_with("\x1b[38;2;"));
    assert!(out.ends_with("\x1b[0m"));
    assert_eq!(strip_escapes(&out), "{\"a\":1}");
}

#[test]
fn end_to_end_post_duplicate_key() {
    let pairs = vec![parse_body("x=1").unwrap(), parse_body("x=2").unwrap()];
    let req = build_post("http://localhost/post", &pairs);
    let members = req.body.unwrap();
    let got: Vec<(&str, &str)> =
        members.iter().map(|b| (b.key.as_str(), b.value.as_str())).collect();
    assert_eq!(got, vec![("x", "2")]);
}

#[test]
fn plain_fallback_is_verbatim() {
    let g = grammars();
    let resp = response(vec![header("Content-Type", "text/csv")], b"a,b,c");
    assert_eq!(render_body(&g, &resp).unwrap(), "a,b,c\n");
    let resp = response(vec![], b"no type");
    assert_eq!(render_body(&g, &resp).unwrap(), "no type\n");
}

#[test]
fn html_body_is_highlighted() {
    let g = grammars();
    let resp = response(vec![header("content-type", "text/html; charset=utf-8")], b"<p>hi</p>");
    let out = render_body(&g, &resp).unwrap();
    assert!(out.contains('\x1b'));
    assert_eq!(strip_escapes(&out), "<p>hi</p>");
}

#[test]
fn invalid_utf8_body_is_an_error() {
    let g = grammars();
    let resp = response(vec![header("content-type", "text/plain")], &[0x61, 0xff, 0x62]);
    assert_eq!(render_body(&g, &resp).unwrap_err(), Error::BodyDecode);
}

#[test]
fn render_head_keeps_header_order_and_status() {
    let resp = Response {
        version: "HTTP/2.0".to_string(),
        status: 404,
        reason: "Not Found".to_string(),
        headers: vec![header("b", "2"), header("a", "\"q\""), header("b", "3")],
        body: vec![],
    };
    let texts: Vec<String> = render_head(&resp).into_iter().map(|p| p.text).collect();
    assert_eq!(
        texts,
        vec!["HTTP/2.0 404 Not Found", "\n\n", "b", ": 2\n", "a", ": \"q\"\n", "b", ": 3\n", "\n"]
    );
}

#[test]
fn render_text_plain_and_json() {
    let g = grammars();
    assert_eq!(render_text(&g, "x", ContentTypeHint::Plain), "x\n");
    let out = render_text(&g, "[1]", ContentTypeHint::Json);
    assert_eq!(strip_escapes(&out), "[1]");
    assert_eq!(render_text(&g, "", ContentTypeHint::Json), "");
}

#[test]
fn body_from_str_splits_at_first_eq() {
    let b: Body = "a=b=c".parse().unwrap();
    assert_eq!((b.key.as_str(), b.value.as_str()), ("a", "b=c"));
    let b: Body = "k=".parse().unwrap();
    assert_eq!((b.key.as_str(), b.value.as_str()), ("k", ""));
    let e = "novalue".parse::<Body>().unwrap_err();
    assert_eq!(e, Error::ArgumentParse { token: "novalue".to_string() });
}

#[test]
fn media_part_drops_parameters_and_blanks() {
    assert_eq!(media_part_of("application/json; charset=utf-8"), "application/json");
    assert_eq!(media_part_of("  text/html  ;x"), "text/html");
    assert_eq!(media_part_of("text/csv"), "text/csv");
    assert_eq!(media_part_of(" ; a"), "");
    assert_eq!(media_part_of(""), "");
}

#[test]
fn classify_ignores_malformed_parameters() {
    let headers = vec![header("content-type", "application/json; charset")];
    assert_eq!(classify(&headers), ContentTypeHint::Json);
    let headers = vec![header("content-type", " text/html ;;;")];
    assert_eq!(classify(&headers), ContentTypeHint::Html);
}

#[test]
fn grammars_load_finds_the_theme() {
    assert!(Grammars::load().is_some());
}

#[test]
fn highlight_multiline_keeps_line_ends() {
    let g = grammars();
    let text = "[\r\n1,\n\n2]";
    let spans = highlight(&g, text, Language::Json);
    assert_eq!(joined(&spans), text);
    let out = render_spans(&spans);
    assert_eq!(strip_escapes(&out), text);
}
