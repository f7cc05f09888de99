//! A small command-line HTTP client library: request building, content-type
//! classification, syntax highlighting of response bodies and the rendering
//! of a response as terminal text.
pub mod classify;
pub mod escape;
pub mod highlight;
pub mod laws;
pub mod render;
pub mod request;

pub use classify::{
    classify, classify_media_type, eq_ignoring_case, media_part_of, ContentTypeHint, Header,
};
pub use escape::{decimal_string, render_spans};
pub use highlight::{highlight, Grammars, Language, Rgb, StyledSpan, THEME_NAME};
pub use render::{render_body, render_head, render_text, Paint, Piece, Response};
pub use request::{
    build_get, build_post, merge_pairs, parse_body, parse_url, Body, Error, Method, Request,
};
