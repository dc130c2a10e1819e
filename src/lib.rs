//! Renders a Markdown-like text dialect to HTML.
//!
//! The input is handled as UTF-16 code units. A classifier types each line,
//! and a fixed sequence of passes merges multi-line structures (code fences,
//! tables, paragraphs, lists, blockquotes) into pre-rendered lines before the
//! last pass serialises them.
use vstd::prelude::*;

pub mod units;
pub mod markup;
pub mod utils;
pub mod numbers;
pub mod escape;
pub mod line;
pub mod predicates;
pub mod tag;
pub mod link;
pub mod decoration;
pub mod inline;
pub mod paragraph;
pub mod blockquote;
pub mod list;
pub mod table;
pub mod syntax_highlighter;
pub mod code_fence;
pub mod markdown;
pub mod text;
pub mod icon;

use crate::syntax_highlighter::SyntaxHighlighter;
use crate::text::{decoded_utf16, encode_utf16, from_utf16_lossy, lossy_units, utf16_of};

verus! {

/// Renders a document to HTML.
pub fn render(input: String) -> (r: String)
    ensures
        r@ == decoded_utf16(crate::markdown::rendered_html(utf16_of(input@))),
        utf16_of(r@) == lossy_units(crate::markdown::rendered_html(utf16_of(input@))),
{
    let highlighter = SyntaxHighlighter::new();
    let units = encode_utf16(input.as_str());
    let html = crate::markdown::render_document(&units, &highlighter);
    from_utf16_lossy(&html)
}

} // verus!
