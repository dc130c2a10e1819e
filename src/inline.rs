//! The inline cascade over lines: which line types it decorates.
use vstd::prelude::*;
use crate::decoration::{code_spanned, render_code_spans};
use crate::line::{Line, LineType, LineView, views};
use crate::tag::independent_tag_resolved;

verus! {

/// The types whose text holds inline syntax; the others are structural or
/// already rendered.
pub open spec fn decorated_type(t: LineType) -> bool {
    match t {
        LineType::Paragraph | LineType::Header | LineType::Blockquote(_) | LineType::OrderedList
        | LineType::UnorderedList => true,
        _ => false,
    }
}

/// A line after the inline cascade.
pub open spec fn inline_rendered(l: LineView) -> LineView {
    if decorated_type(l.line_type) {
        LineView { content: code_spanned(l.content), ..l }
    } else {
        l
    }
}

/// Runs the inline cascade on one line, if its type holds inline syntax.
pub fn render_inline(line: Line) -> (r: Line)
    ensures
        r@ == inline_rendered(line@),
{
    let mut line = line;
    match line.line_type {
        LineType::Paragraph | LineType::Header | LineType::Blockquote(_) | LineType::OrderedList
        | LineType::UnorderedList => {
            let new_content = render_code_spans(&line.content);
            line.content = new_content;
            line
        },
        _ => line,
    }
}

/// Runs the inline cascade on every line.
pub fn render_inlines(lines: Vec<Line>) -> (r: Vec<Line>)
    ensures
        views(r@) == views(lines@).map_values(|l: LineView| inline_rendered(l)),
        r@.len() == lines@.len(),
        forall|k: int| 0 <= k < r@.len() ==> #[trigger] r@[k].line_type == lines@[k].line_type,
{
    let mut r: Vec<Line> = Vec::new();
    let mut i: usize = 0;
    while i < lines.len()
        invariant
            i <= lines@.len(),
            r@.len() == i,
            views(r@) == views(lines@.subrange(0, i as int)).map_values(
                |l: LineView| inline_rendered(l),
            ),
            forall|k: int| 0 <= k < i ==> #[trigger] r@[k].line_type == lines@[k].line_type,
        decreases lines@.len() - i,
    {
        let ln = lines[i].copy();
        let out = render_inline(ln);
        let ghost old_r = r@;
        r.push(out);
        proof {
            assert(views(r@) =~= views(old_r).push(r@[i as int]@));
            assert(views(lines@.subrange(0, i + 1)) =~= views(lines@.subrange(0, i as int)).push(
                lines@[i as int]@,
            ));
            assert(views(r@) =~= views(lines@.subrange(0, i + 1)).map_values(
                |l: LineView| inline_rendered(l),
            ));
        }
        i += 1;
    }
    proof {
        assert(lines@.subrange(0, lines@.len() as int) =~= lines@);
    }
    r
}

/// Fenced code is never decorated: the whole-line tag pass and the inline
/// cascade give a fenced code line back as it is.
pub proof fn lemma_fenced_code_not_decorated(l: LineView)
    requires
        l.line_type == LineType::FencedCode,
    ensures
        independent_tag_resolved(l) == l,
        inline_rendered(l) == l,
{
}

} // verus!
