//! The rendering pipeline: the passes in their fixed order.
use vstd::prelude::*;
use crate::blockquote::{blockquotes_from, merge_blockquote, merged_blockquotes};
use crate::code_fence::{fences_from, merge_code_fence, merged_fences, no_options};
use crate::decoration::{inert, inert_unit, lemma_code_spanned_inert};
use crate::escape::{
    escape_backslashes, escape_htmls, escape_unit, escaped, lemma_unbackslashed_unchanged,
    unbackslashed,
};
use crate::inline::{inline_rendered, render_inlines};
use crate::line::{
    classified, code_to_lines, document_lines, indent_width, leading_blanks, raw_line,
    render_lines, rendered_line, rendered_lines, LineType, LineView,
};
use crate::list::{lists_from, merge_list, merged_lists};
use crate::markup::{p_close, p_open};
use crate::paragraph::{joined, merge_paragraph, merged_paragraphs, paragraph_of, paragraphs_from};
use crate::predicates::{break_of, is_order_marker, line_type_of};
use crate::syntax_highlighter::SyntaxHighlighter;
use crate::table::{merge_table, merged_tables, tables_from};
use crate::tag::{independent_tag_resolved, render_independent_tag, tag_at};
use crate::text::{decoded_utf16, encode_utf16, from_utf16_lossy, lossy_units, utf16_of};
use crate::units::{
    AMPERSAND, ASTERISK, BACKSLASH, BACKTICK, CARET, DOT, EXCLAMATION, GREATER_THAN,
    LEFT_PARENTHESIS, LEFT_SQUARE_BRACKET, MINUS, NEWLINE, RIGHT_PARENTHESIS, RIGHT_SQUARE_BRACKET,
    SHARP, SPACE, TAB, TILDE, UNDERBAR, VERTICAL_BAR,
};
use crate::utils::{leading, lemma_split_single};

verus! {

/// The lines of a document after every pass, ready to be serialised.
pub open spec fn rendered_document_lines(code: Seq<u16>) -> Seq<LineView> {
    let fenced = merged_fences(document_lines(escaped(code)));
    let tagged = fenced.map_values(|l: LineView| independent_tag_resolved(l));
    let decorated = tagged.map_values(|l: LineView| inline_rendered(l));
    merged_blockquotes(merged_lists(merged_paragraphs(merged_tables(decorated))))
}

/// The HTML of a document given as code units.
pub open spec fn rendered_html(code: Seq<u16>) -> Seq<u16> {
    unbackslashed(rendered_lines(rendered_document_lines(code)))
}

/// Renders a document, given as code units, to HTML code units.
pub fn render_document(content: &Vec<u16>, syntax_highlighter: &SyntaxHighlighter) -> (r: Vec<u16>)
    ensures
        r@ == rendered_html(content@),
{
    let escaped_content = escape_htmls(content);
    let lines = code_to_lines(&escaped_content);
    let fenced = merge_code_fence(&lines, syntax_highlighter);
    let tagged = render_independent_tag(&fenced);
    let lines = render_inlines(tagged);
    proof {
        assert forall|k: int| 0 <= k < lines@.len() implies #[trigger] lines@[k].line_type
            != LineType::CodeFence by {
            assert(fenced@[k].line_type != LineType::CodeFence);
        }
    }
    // Tables go before paragraphs: a delimiter line that starts no table
    // must be a paragraph by the time paragraphs are merged.
    let lines = merge_table(&lines);
    let lines = merge_paragraph(&lines);
    let lines = merge_list(&lines);
    let lines = merge_blockquote(&lines);
    let result = render_lines(&lines);
    escape_backslashes(&result)
}

/// Renders a document to HTML; rendering always succeeds.
pub fn render(content: &String) -> (r: Result<String, ()>)
    ensures
        r matches Ok(html) && html@ == decoded_utf16(rendered_html(utf16_of(content@)))
            && utf16_of(html@) == lossy_units(rendered_html(utf16_of(content@))),
{
    let syntax_highlighter = SyntaxHighlighter::new();
    let units = encode_utf16(content.as_str());
    let html = render_document(&units, &syntax_highlighter);
    Ok(from_utf16_lossy(&html))
}

/// A unit that no block or inline rule reacts to.
pub open spec fn plain_unit(c: u16) -> bool {
    c != NEWLINE && c != SHARP && c != ASTERISK && c != MINUS && c != UNDERBAR && c != BACKTICK
        && c != VERTICAL_BAR && c != GREATER_THAN && c != LEFT_SQUARE_BRACKET && c
        != RIGHT_SQUARE_BRACKET && c != LEFT_PARENTHESIS && c != RIGHT_PARENTHESIS && c
        != EXCLAMATION && c != TILDE && c != CARET && c != BACKSLASH
}

/// Text with no special syntax: one non-empty line of plain units that
/// starts with neither a space nor a tab nor an ordered list marker.
pub open spec fn plain_text(s: Seq<u16>) -> bool {
    &&& s.len() > 0
    &&& s[0] != SPACE
    &&& s[0] != TAB
    &&& forall|j: int| 0 <= j < s.len() ==> plain_unit(#[trigger] s[j])
    &&& !(s.len() >= 3 && is_order_marker(s[0]) && s[1] == DOT && s[2] == SPACE)
}

/// The units that escaping writes are plain, and so is the escaped form of plain text.
proof fn lemma_escaped_plain(s: Seq<u16>)
    requires
        forall|j: int| 0 <= j < s.len() ==> plain_unit(#[trigger] s[j]),
    ensures
        forall|j: int| 0 <= j < escaped(s).len() ==> plain_unit(#[trigger] escaped(s)[j]),
    decreases s.len(),
{
    if s.len() > 0 {
        let rest = s.drop_first();
        assert forall|j: int| 0 <= j < rest.len() implies plain_unit(#[trigger] rest[j]) by {
            assert(rest[j] == s[j + 1]);
        }
        lemma_escaped_plain(rest);
        let u = escape_unit(s[0]);
        assert(plain_unit(s[0]));
        let e = escaped(s);
        assert(e == u + escaped(rest));
        assert forall|j: int| 0 <= j < e.len() implies plain_unit(#[trigger] e[j]) by {
            if j < u.len() {
                assert(e[j] == u[j]);
            } else {
                assert(e[j] == escaped(rest)[j - u.len()]);
            }
        }
    }
}

/// The first unit of escaped text: `&` where the first unit needs an
/// entity, that unit itself otherwise, followed by the escaped rest.
proof fn lemma_escaped_head(s: Seq<u16>)
    requires
        s.len() > 0,
    ensures
        escaped(s).len() > 0,
        escape_unit(s[0]).len() == 1 ==> escaped(s)[0] == s[0] && escaped(s).drop_first()
            == escaped(s.drop_first()),
        escape_unit(s[0]).len() != 1 ==> escaped(s)[0] == AMPERSAND,
{
    let u = escape_unit(s[0]);
    let e = escaped(s);
    assert(e == u + escaped(s.drop_first()));
    assert(e[0] == u[0]);
    if u.len() == 1 {
        assert(e.drop_first() =~= escaped(s.drop_first()));
    }
}

/// A document with no special syntax renders as one paragraph that holds
/// its text, entity-escaped and otherwise unchanged.
pub proof fn lemma_plain_text_is_one_paragraph(s: Seq<u16>)
    requires
        plain_text(s),
    ensures
        rendered_html(s) == p_open() + escaped(s) + p_close() + seq![NEWLINE],
{
    let e = escaped(s);
    lemma_escaped_plain(s);
    lemma_escaped_head(s);
    assert(plain_unit(e[0]));
    if e.len() >= 3 && is_order_marker(e[0]) {
        let r1 = s.drop_first();
        assert(escape_unit(s[0]).len() == 1);
        assert(s.len() >= 2) by {
            if s.len() == 1 {
                assert(escaped(r1) =~= Seq::<u16>::empty());
            }
        }
        lemma_escaped_head(r1);
        if e[1] == DOT {
            assert(escape_unit(r1[0]).len() == 1);
            let r2 = r1.drop_first();
            assert(s.len() >= 3) by {
                if s.len() == 2 {
                    assert(escaped(r2) =~= Seq::<u16>::empty());
                }
            }
            lemma_escaped_head(r2);
            assert(e[2] == escaped(r2)[0]);
            assert(e[2] == SPACE ==> r2[0] == SPACE);
        }
    }
    assert forall|j: int| 0 <= j < e.len() implies #[trigger] e[j] != NEWLINE by {
        assert(plain_unit(e[j]));
    }
    lemma_split_single(e, NEWLINE);
    let l = LineView { content: e, indent: 0, line_type: LineType::Paragraph };
    assert(leading_blanks(e) == 0);
    assert(indent_width(e) == 0);
    assert(e.subrange(0, e.len() as int) =~= e);
    assert(raw_line(e) == l);
    assert(leading(e, SHARP) == 0);
    assert(!break_of(e, ASTERISK) && !break_of(e, MINUS) && !break_of(e, UNDERBAR)) by {
        assert(e[0] != ASTERISK && e[0] != MINUS && e[0] != UNDERBAR);
    }
    if e.len() > 1 {
        assert(plain_unit(e[1]));
    }
    assert(!tag_at(e, 0));
    assert(line_type_of(l) == LineType::Paragraph);
    assert(classified(e) == l);
    let ls = seq![l];
    assert(document_lines(e) =~= ls);
    let empty = Seq::<LineView>::empty();
    assert(fences_from(ls, 1, false, empty, no_options(), empty.push(l)) == ls);
    assert(merged_fences(ls) =~= ls);
    assert(inert(e)) by {
        assert forall|j: int| 0 <= j < e.len() implies inert_unit(#[trigger] e[j]) by {
            assert(plain_unit(e[j]));
        }
    }
    lemma_code_spanned_inert(e);
    let tagged = ls.map_values(|x: LineView| independent_tag_resolved(x));
    assert(tagged =~= ls);
    let decorated = tagged.map_values(|x: LineView| inline_rendered(x));
    assert(decorated =~= ls);
    assert(tables_from(ls, 1, false, empty, empty.push(l)) == ls);
    assert(merged_tables(ls) =~= ls);
    assert(joined(ls) == e);
    assert(paragraph_of(ls) == l);
    assert(paragraphs_from(ls, 1, seq![l], empty) == ls);
    assert(merged_paragraphs(ls) =~= ls);
    assert(lists_from(ls, 1, empty, empty.push(l)) == ls);
    assert(merged_lists(ls) =~= ls);
    assert(blockquotes_from(ls, 1, empty, empty.push(l)) == ls);
    assert(merged_blockquotes(ls) =~= ls);
    assert(rendered_document_lines(s) == ls);
    let out = p_open() + e + p_close() + seq![NEWLINE];
    assert(ls.drop_last() =~= Seq::<LineView>::empty());
    assert(rendered_lines(ls.drop_last()) == Seq::<u16>::empty());
    assert(rendered_line(l) == p_open() + e + p_close());
    assert(rendered_lines(ls) =~= out);
    assert forall|j: int| 0 <= j < out.len() implies #[trigger] out[j] != BACKSLASH by {
        if 3 <= j < 3 + e.len() {
            assert(out[j] == e[j - 3]);
            assert(plain_unit(e[j - 3]));
        }
    }
    lemma_unbackslashed_unchanged(out);
}

} // verus!
