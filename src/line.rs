//! The typed line, the unit that every pass reads and writes.
use vstd::prelude::*;
use crate::markup::{
    attr_close, attr_close_units, gt, gt_units, h_close, h_close_units, h_open, h_open_units, hr,
    hr_units, id_attr_open, id_attr_open_units, p_close, p_close_units, p_open, p_open_units,
    pre_code_close, pre_code_close_units, pre_code_open, pre_code_open_units,
};
use crate::predicates::{get_type, line_type_of};
use crate::units::{NEWLINE, SHARP, SPACE, TAB};
use crate::utils::{
    after_leading, copy_range, leading, push_all, remove_special_characters, split,
    split_units, take_and_drop_while, drop_while, word_units,
};

verus! {

/// What a line is, as far as the passes are concerned.
#[derive(Clone, Copy, Debug, PartialEq, Eq, Structural)]
pub enum LineType {
    Paragraph,
    Header,
    ThematicBreak,
    CodeFence,
    TableDelimiter,
    FencedCode,
    RenderedTable,
    /// The number of leading `>`; zero marks an already merged blockquote.
    Blockquote(usize),
    UnorderedList,
    Tag,
    OrderedList,
    Empty,
}

/// One line of the document: its text after the indentation, the width of
/// that indentation (a space counts one, a tab four), and its type.
#[derive(Clone, Debug)]
pub struct Line {
    pub content: Vec<u16>,
    pub indent: usize,
    pub line_type: LineType,
}

/// The mathematical value of a `Line`.
pub ghost struct LineView {
    pub content: Seq<u16>,
    pub indent: nat,
    pub line_type: LineType,
}

impl View for Line {
    type V = LineView;

    open spec fn view(&self) -> LineView {
        LineView { content: self.content@, indent: self.indent as nat, line_type: self.line_type }
    }
}

/// The views of a sequence of lines.
pub open spec fn views(ls: Seq<Line>) -> Seq<LineView> {
    ls.map_values(|l: Line| l@)
}

/// Number of leading spaces and tabs of `s`.
pub open spec fn leading_blanks(s: Seq<u16>) -> nat
    decreases s.len(),
{
    if s.len() > 0 && (s[0] == SPACE || s[0] == TAB) {
        1 + leading_blanks(s.drop_first())
    } else {
        0
    }
}

/// Width of the leading spaces and tabs of `s`: one per space, four per tab.
pub open spec fn indent_width(s: Seq<u16>) -> nat
    decreases s.len(),
{
    if s.len() > 0 && s[0] == SPACE {
        1 + indent_width(s.drop_first())
    } else if s.len() > 0 && s[0] == TAB {
        4 + indent_width(s.drop_first())
    } else {
        0
    }
}

/// `n`, or the largest `usize` where `n` is larger.
pub open spec fn clamp_usize(n: nat) -> nat {
    if n <= usize::MAX {
        n
    } else {
        usize::MAX as nat
    }
}

/// A raw line split into its indentation and its content, typed as a paragraph.
pub open spec fn raw_line(s: Seq<u16>) -> LineView {
    LineView {
        content: s.subrange(leading_blanks(s) as int, s.len() as int),
        indent: clamp_usize(indent_width(s)),
        line_type: LineType::Paragraph,
    }
}

/// A raw line with the type that the classifier gives it.
pub open spec fn classified(s: Seq<u16>) -> LineView {
    let l = raw_line(s);
    LineView { line_type: line_type_of(l), ..l }
}

/// The lines of a document: one per piece between newlines, classified.
pub open spec fn document_lines(code: Seq<u16>) -> Seq<LineView> {
    split(code, NEWLINE).map_values(|p: Seq<u16>| classified(p))
}

proof fn lemma_blanks_step(s: Seq<u16>, i: int)
    requires
        0 <= i < s.len(),
        forall|j: int| 0 <= j < i ==> (s[j] == SPACE || s[j] == TAB),
    ensures
        leading_blanks(s) == i + leading_blanks(s.subrange(i, s.len() as int)),
        indent_width(s) == indent_width(s.subrange(0, i)) + indent_width(s.subrange(i, s.len() as int)),
    decreases i,
{
    if i > 0 {
        lemma_blanks_step(s.drop_first(), i - 1);
        assert(s.drop_first().subrange(i - 1, s.len() - 1) =~= s.subrange(i, s.len() as int));
        assert(s.subrange(0, i).drop_first() =~= s.drop_first().subrange(0, i - 1));
    } else {
        assert(s.subrange(0, 0).len() == 0);
        assert(s.subrange(0, s.len() as int) =~= s);
    }
}

/// `n` spaces.
pub open spec fn spaces(n: nat) -> Seq<u16> {
    Seq::new(n, |i: int| SPACE)
}

impl Line {
    /// A copy of this line.
    pub fn copy(&self) -> (r: Line)
        ensures
            r@ == self@,
    {
        let c = copy_range(&self.content, 0, self.content.len());
        proof {
            assert(self.content@.subrange(0, self.content@.len() as int) =~= self.content@);
        }
        Line { content: c, indent: self.indent, line_type: self.line_type }
    }

    /// Splits a raw line into its indentation and its content; the type is `Paragraph`.
    pub fn from_raw(raw: &Vec<u16>) -> (r: Line)
        ensures
            r@ == raw_line(raw@),
    {
        let mut indent: usize = 0;
        let mut index: usize = 0;
        while index < raw.len() && (raw[index] == SPACE || raw[index] == TAB)
            invariant
                index <= raw@.len(),
                forall|j: int| 0 <= j < index ==> (raw@[j] == SPACE || raw@[j] == TAB),
                indent as nat == clamp_usize(indent_width(raw@.subrange(0, index as int))),
            decreases raw@.len() - index,
        {
            let ghost w = indent_width(raw@.subrange(0, index as int));
            proof {
                let t = raw@.subrange(0, index + 1);
                lemma_blanks_step(t, index as int);
                assert(t.subrange(0, index as int) =~= raw@.subrange(0, index as int));
                assert(t.subrange(index as int, t.len() as int) =~= seq![raw@[index as int]]);
                let u = seq![raw@[index as int]];
                assert(u.drop_first().len() == 0);
                assert(indent_width(u.drop_first()) == 0);
            }
            if raw[index] == SPACE {
                indent = indent.saturating_add(1);
            } else {
                indent = indent.saturating_add(4);
            }
            index += 1;
        }
        proof {
            if index < raw@.len() {
                lemma_blanks_step(raw@, index as int);
                assert(indent_width(raw@) == indent_width(raw@.subrange(0, index as int)));
            } else {
                assert(raw@.subrange(0, index as int) =~= raw@);
                lemma_all_blanks(raw@);
            }
        }
        let content = copy_range(raw, index, raw.len());
        Line { content, indent, line_type: LineType::Paragraph }
    }

    /// The line with its indentation put back as spaces.
    pub fn into_raw(&self) -> (r: Vec<u16>)
        ensures
            r@ == spaces(self.indent as nat) + self.content@,
    {
        let mut r: Vec<u16> = Vec::new();
        let mut i: usize = 0;
        while i < self.indent
            invariant
                i <= self.indent,
                r@ == spaces(i as nat),
            decreases self.indent - i,
        {
            r.push(SPACE);
            i += 1;
            proof {
                assert(r@ =~= spaces(i as nat));
            }
        }
        push_all(&mut r, &self.content);
        r
    }
}

/// The types that the last pass can render.
pub open spec fn renderable(t: LineType) -> bool {
    t != LineType::CodeFence && t != LineType::TableDelimiter
}

/// The digit unit of a header level.
pub open spec fn header_digit(n: nat) -> u16 {
    ((n % 65536 + 48) % 65536) as u16
}

/// A header: the level from the `#` run, an id made of the word units of
/// the text, and the text after the run and its spaces.
pub open spec fn header_html(c: Seq<u16>) -> Seq<u16> {
    let d = header_digit(leading(c, SHARP));
    let text = after_leading(after_leading(c, SHARP), SPACE);
    h_open() + seq![d] + id_attr_open() + word_units(text) + attr_close() + text + h_close() + seq![d]
        + gt()
}

/// The markup of one line.
pub open spec fn rendered_line(l: LineView) -> Seq<u16> {
    match l.line_type {
        LineType::Paragraph => p_open() + l.content + p_close(),
        LineType::Header => header_html(l.content),
        LineType::ThematicBreak => hr(),
        LineType::Empty => Seq::empty(),
        LineType::FencedCode => pre_code_open() + l.content + pre_code_close(),
        _ => l.content,
    }
}

/// The markup of a sequence of lines, each followed by a newline.
pub open spec fn rendered_lines(ls: Seq<LineView>) -> Seq<u16>
    decreases ls.len(),
{
    if ls.len() == 0 {
        Seq::empty()
    } else {
        rendered_lines(ls.drop_last()) + rendered_line(ls.last()) + seq![NEWLINE]
    }
}

impl Line {
    /// The markup of this line.
    pub fn render(&self) -> (r: Vec<u16>)
        requires
            renderable(self.line_type),
        ensures
            r@ == rendered_line(self@),
    {
        match self.line_type {
            LineType::Paragraph => self.render_paragraph(),
            LineType::Header => self.render_header(),
            LineType::ThematicBreak => hr_units(),
            LineType::Empty => Vec::new(),
            LineType::FencedCode => self.render_fenced_code(),
            _ => self.render_as_it_is(),
        }
    }

    fn render_paragraph(&self) -> (r: Vec<u16>)
        ensures
            r@ == p_open() + self.content@ + p_close(),
    {
        let mut r = p_open_units();
        push_all(&mut r, &self.content);
        push_all(&mut r, &p_close_units());
        r
    }

    fn render_as_it_is(&self) -> (r: Vec<u16>)
        ensures
            r@ == self.content@,
    {
        copy_range(&self.content, 0, self.content.len())
    }

    fn render_header(&self) -> (r: Vec<u16>)
        ensures
            r@ == header_html(self.content@),
    {
        let (sharps, sharps_removed) = take_and_drop_while(&self.content, SHARP);
        let text = drop_while(&sharps_removed, SPACE);
        let d: u16 = ((sharps.len() % 65536 + 48) % 65536) as u16;
        let mut r = h_open_units();
        r.push(d);
        push_all(&mut r, &id_attr_open_units());
        push_all(&mut r, &remove_special_characters(&text));
        push_all(&mut r, &attr_close_units());
        push_all(&mut r, &text);
        push_all(&mut r, &h_close_units());
        r.push(d);
        push_all(&mut r, &gt_units());
        r
    }

    fn render_fenced_code(&self) -> (r: Vec<u16>)
        ensures
            r@ == pre_code_open() + self.content@ + pre_code_close(),
    {
        let mut r = pre_code_open_units();
        push_all(&mut r, &self.content);
        push_all(&mut r, &pre_code_close_units());
        r
    }
}

/// Splits a document into lines and classifies each.
pub fn code_to_lines(code: &Vec<u16>) -> (r: Vec<Line>)
    ensures
        views(r@) == document_lines(code@),
{
    let pieces = split_units(code, NEWLINE);
    let ghost ps = pieces@.map_values(|x: Vec<u16>| x@);
    let mut r: Vec<Line> = Vec::new();
    let mut i: usize = 0;
    while i < pieces.len()
        invariant
            ps == pieces@.map_values(|x: Vec<u16>| x@),
            ps == split(code@, NEWLINE),
            i <= pieces@.len(),
            views(r@) == ps.subrange(0, i as int).map_values(|p: Seq<u16>| classified(p)),
        decreases pieces@.len() - i,
    {
        let mut ln = Line::from_raw(&pieces[i]);
        let t = get_type(&ln);
        ln.line_type = t;
        proof {
            assert(pieces@[i as int]@ == ps[i as int]);
            assert(ln@ == classified(ps[i as int]));
        }
        let ghost old_r = r@;
        let ghost lv = ln@;
        r.push(ln);
        proof {
            assert(views(r@) =~= views(old_r).push(lv));
            assert(ps.subrange(0, i + 1).map_values(|p: Seq<u16>| classified(p)) =~= ps.subrange(
                0,
                i as int,
            ).map_values(|p: Seq<u16>| classified(p)).push(classified(ps[i as int])));
        }
        i += 1;
    }
    proof {
        assert(ps.subrange(0, ps.len() as int) =~= ps);
    }
    r
}

/// Renders every line, each followed by a newline.
pub fn render_lines(lines: &Vec<Line>) -> (r: Vec<u16>)
    requires
        forall|k: int| 0 <= k < lines@.len() ==> renderable(#[trigger] lines@[k].line_type),
    ensures
        r@ == rendered_lines(views(lines@)),
{
    let mut r: Vec<u16> = Vec::new();
    let mut i: usize = 0;
    while i < lines.len()
        invariant
            i <= lines@.len(),
            forall|k: int| 0 <= k < lines@.len() ==> renderable(#[trigger] lines@[k].line_type),
            r@ == rendered_lines(views(lines@.subrange(0, i as int))),
        decreases lines@.len() - i,
    {
        let piece = lines[i].render();
        push_all(&mut r, &piece);
        r.push(NEWLINE);
        proof {
            let ls = views(lines@.subrange(0, i + 1));
            assert(ls.drop_last() =~= views(lines@.subrange(0, i as int)));
            assert(ls.last() == lines@[i as int]@);
        }
        i += 1;
    }
    proof {
        assert(lines@.subrange(0, lines@.len() as int) =~= lines@);
    }
    r
}

proof fn lemma_all_blanks(s: Seq<u16>)
    requires
        forall|j: int| 0 <= j < s.len() ==> (s[j] == SPACE || s[j] == TAB),
    ensures
        leading_blanks(s) == s.len(),
    decreases s.len(),
{
    if s.len() > 0 {
        lemma_all_blanks(s.drop_first());
    }
}

} // verus!
