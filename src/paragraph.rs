//! Paragraphs: runs of adjacent paragraph lines merged into one.
use vstd::prelude::*;
use crate::line::{renderable, Line, LineType, LineView, views};
use crate::markup::{br, br_units};
use crate::units::SPACE;
use crate::utils::push_all;

verus! {

/// The line ends in two spaces (and holds more than two units): a hard break follows it.
pub open spec fn hard_break(c: Seq<u16>) -> bool {
    c.len() > 2 && c[c.len() - 1] == SPACE && c[c.len() - 2] == SPACE
}

/// What joins a line to the next one of its block.
pub open spec fn separator(c: Seq<u16>) -> Seq<u16> {
    if hard_break(c) {
        br()
    } else {
        seq![SPACE]
    }
}

/// The contents of `ps`, each joined to the next by its separator.
pub open spec fn joined(ps: Seq<LineView>) -> Seq<u16>
    decreases ps.len(),
{
    if ps.len() == 0 {
        Seq::empty()
    } else if ps.len() == 1 {
        ps[0].content
    } else {
        joined(ps.drop_last()) + separator(ps[ps.len() - 2].content) + ps.last().content
    }
}

/// One paragraph line made of `ps`.
pub open spec fn paragraph_of(ps: Seq<LineView>) -> LineView {
    LineView { content: joined(ps), indent: 0, line_type: LineType::Paragraph }
}

/// `acc` with the pending run `cur` closed, if there is one.
pub open spec fn flush_paragraph(cur: Seq<LineView>, acc: Seq<LineView>) -> Seq<LineView> {
    if cur.len() > 0 {
        acc.push(paragraph_of(cur))
    } else {
        acc
    }
}

/// Merging paragraph runs from line `i`, with `cur` the run so far.
pub open spec fn paragraphs_from(
    ls: Seq<LineView>,
    i: int,
    cur: Seq<LineView>,
    acc: Seq<LineView>,
) -> Seq<LineView>
    decreases ls.len() - i,
{
    if i < 0 || i >= ls.len() {
        flush_paragraph(cur, acc)
    } else if ls[i].line_type == LineType::Paragraph {
        paragraphs_from(ls, i + 1, cur.push(ls[i]), acc)
    } else {
        paragraphs_from(ls, i + 1, Seq::empty(), flush_paragraph(cur, acc).push(ls[i]))
    }
}

/// `ls` with each run of adjacent paragraph lines merged into one.
pub open spec fn merged_paragraphs(ls: Seq<LineView>) -> Seq<LineView> {
    paragraphs_from(ls, 0, Seq::empty(), Seq::empty())
}

pub(crate) fn separator_units(c: &Vec<u16>) -> (r: Vec<u16>)
    ensures
        r@ == separator(c@),
{
    let n = c.len();
    if n > 2 && c[n - 1] == SPACE && c[n - 2] == SPACE {
        br_units()
    } else {
        vec![SPACE]
    }
}

fn construct_paragraph(paragraph: &Vec<Line>) -> (r: Line)
    ensures
        r@ == paragraph_of(views(paragraph@)),
{
    let mut content: Vec<u16> = Vec::new();
    let mut i: usize = 0;
    while i < paragraph.len()
        invariant
            i <= paragraph@.len(),
            content@ == joined(views(paragraph@.subrange(0, i as int))),
        decreases paragraph@.len() - i,
    {
        if i > 0 {
            push_all(&mut content, &separator_units(&paragraph[i - 1].content));
        }
        push_all(&mut content, &paragraph[i].content);
        proof {
            let ps = views(paragraph@.subrange(0, i + 1));
            assert(ps.drop_last() =~= views(paragraph@.subrange(0, i as int)));
            if i > 0 {
                assert(ps[ps.len() - 2] == paragraph@[i - 1]@);
            } else {
                assert(content@ =~= ps[0].content);
            }
        }
        i += 1;
    }
    proof {
        assert(paragraph@.subrange(0, paragraph@.len() as int) =~= paragraph@);
    }
    Line { content, indent: 0, line_type: LineType::Paragraph }
}

/// Every line of `ls` has a type that the last pass renders.
pub open spec fn all_renderable(ls: Seq<Line>) -> bool {
    forall|k: int| 0 <= k < ls.len() ==> renderable(#[trigger] ls[k].line_type)
}

/// Merges each run of adjacent paragraph lines into one paragraph.
pub fn merge_paragraph(lines: &Vec<Line>) -> (r: Vec<Line>)
    ensures
        views(r@) == merged_paragraphs(views(lines@)),
        all_renderable(lines@) ==> all_renderable(r@),
{
    let ghost ls = views(lines@);
    let mut cur: Vec<Line> = Vec::new();
    let mut r: Vec<Line> = Vec::new();
    let mut i: usize = 0;
    proof {
        assert(views(cur@) =~= Seq::<LineView>::empty());
        assert(views(r@) =~= Seq::<LineView>::empty());
    }
    while i < lines.len()
        invariant
            ls == views(lines@),
            i <= lines@.len(),
            paragraphs_from(ls, i as int, views(cur@), views(r@)) == merged_paragraphs(ls),
            all_renderable(lines@) ==> all_renderable(r@),
        decreases lines@.len() - i,
    {
        let ghost cur0 = views(cur@);
        let ghost acc0 = views(r@);
        if lines[i].line_type == LineType::Paragraph {
            cur.push(lines[i].copy());
            proof {
                assert(views(cur@) =~= cur0.push(ls[i as int]));
            }
        } else {
            if cur.len() > 0 {
                let p = construct_paragraph(&cur);
                r.push(p);
                cur = Vec::new();
            }
            proof {
                assert(views(r@) =~= flush_paragraph(cur0, acc0));
            }
            let ghost acc1 = views(r@);
            r.push(lines[i].copy());
            proof {
                assert(views(r@) =~= acc1.push(ls[i as int]));
                assert(views(cur@) =~= Seq::<LineView>::empty());
            }
        }
        i += 1;
    }
    let ghost cur0 = views(cur@);
    let ghost acc0 = views(r@);
    if cur.len() > 0 {
        let p = construct_paragraph(&cur);
        r.push(p);
    }
    proof {
        assert(views(r@) =~= flush_paragraph(cur0, acc0));
    }
    r
}

/// Two adjacent paragraph lines merge into one paragraph, joined by a space,
/// or by `<br />` where the first ends in two spaces.
pub proof fn lemma_adjacent_lines_merge(a: LineView, b: LineView)
    requires
        a.line_type == LineType::Paragraph,
        b.line_type == LineType::Paragraph,
    ensures
        merged_paragraphs(seq![a, b]) == seq![
            LineView {
                content: a.content + separator(a.content) + b.content,
                indent: 0,
                line_type: LineType::Paragraph,
            },
        ],
{
    let ls = seq![a, b];
    let e = Seq::<LineView>::empty();
    assert(paragraphs_from(ls, 2, e.push(a).push(b), e) == flush_paragraph(e.push(a).push(b), e));
    assert(paragraphs_from(ls, 1, e.push(a), e) == flush_paragraph(e.push(a).push(b), e));
    let ps = e.push(a).push(b);
    assert(ps.drop_last() =~= seq![a]);
    assert(joined(seq![a]) == a.content);
    assert(joined(ps) == a.content + separator(a.content) + b.content);
    assert(flush_paragraph(ps, e) =~= seq![paragraph_of(ps)]);
}

/// Paragraph lines separated by a line of another type, such as an empty
/// one, stay separate paragraphs.
pub proof fn lemma_separated_lines_stay_apart(a: LineView, sep: LineView, b: LineView)
    requires
        a.line_type == LineType::Paragraph,
        sep.line_type != LineType::Paragraph,
        b.line_type == LineType::Paragraph,
    ensures
        merged_paragraphs(seq![a, sep, b]) == seq![paragraph_of(seq![a]), sep, paragraph_of(seq![b])],
{
    let ls = seq![a, sep, b];
    let e = Seq::<LineView>::empty();
    let pa = paragraph_of(e.push(a));
    let pb = paragraph_of(e.push(b));
    assert(paragraphs_from(ls, 3, e.push(b), e.push(pa).push(sep)) == e.push(pa).push(sep).push(pb));
    assert(paragraphs_from(ls, 2, e, e.push(pa).push(sep)) == e.push(pa).push(sep).push(pb));
    assert(flush_paragraph(e.push(a), e) == e.push(pa));
    assert(paragraphs_from(ls, 1, e.push(a), e) == e.push(pa).push(sep).push(pb));
    assert(e.push(a) =~= seq![a]);
    assert(e.push(b) =~= seq![b]);
    assert(e.push(pa).push(sep).push(pb) =~= seq![pa, sep, pb]);
}

} // verus!
