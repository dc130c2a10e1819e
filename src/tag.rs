//! The custom `[[name]]` tags, whole-line and inline.
use vstd::prelude::*;
use crate::line::{Line, LineType, LineView, views};
use crate::markup::{
    align_div_open, align_div_open_units, attr_close, attr_close_units, box_div, box_div_units,
    div_close, div_close_units, font_span_open, font_span_open_units, nbsp, nbsp_units, span_close,
    span_close_units,
};
use crate::units::{LEFT_SQUARE_BRACKET, RIGHT_SQUARE_BRACKET, SLASH, SPACE};
use crate::utils::{
    copy_range, get_bracket_end_index, lemma_partner_from_range, lower, lowercase, partner,
    push_all,
};

verus! {

/// A `[[...]]` tag starts at `i`: two `[`, and the inner group closes just
/// before the outer one.
pub open spec fn tag_at(s: Seq<u16>, i: int) -> bool {
    &&& 0 <= i
    &&& i + 1 < s.len()
    &&& s[i] == LEFT_SQUARE_BRACKET
    &&& s[i + 1] == LEFT_SQUARE_BRACKET
    &&& partner(s, i, LEFT_SQUARE_BRACKET, RIGHT_SQUARE_BRACKET) is Some
    &&& partner(s, i + 1, LEFT_SQUARE_BRACKET, RIGHT_SQUARE_BRACKET) is Some
    &&& partner(s, i + 1, LEFT_SQUARE_BRACKET, RIGHT_SQUARE_BRACKET).unwrap() + 1 == partner(
        s,
        i,
        LEFT_SQUARE_BRACKET,
        RIGHT_SQUARE_BRACKET,
    ).unwrap()
}

/// Tells whether a `[[...]]` tag starts at `index`.
pub fn is_tag(content: &Vec<u16>, index: usize) -> (r: bool)
    requires
        index < content@.len(),
    ensures
        r == tag_at(content@, index as int),
{
    if !(content[index] == LEFT_SQUARE_BRACKET && content.len() - index > 1 && content[index + 1]
        == LEFT_SQUARE_BRACKET) {
        return false;
    }
    let end1 = match get_bracket_end_index(content, index) {
        None => {
            return false;
        },
        Some(i) => i,
    };
    let end2 = match get_bracket_end_index(content, index + 1) {
        None => {
            return false;
        },
        Some(i) => i,
    };
    end2 < end1 && end1 - end2 == 1
}

/// aqua, blue, green, lime, orange, red, violet, white or yellow.
pub open spec fn color_name(s: Seq<u16>) -> bool {
    s == seq![97u16, 113, 117, 97]
        || s == seq![98u16, 108, 117, 101]
        || s == seq![103u16, 114, 101, 101, 110]
        || s == seq![108u16, 105, 109, 101]
        || s == seq![111u16, 114, 97, 110, 103, 101]
        || s == seq![114u16, 101, 100]
        || s == seq![118u16, 105, 111, 108, 101, 116]
        || s == seq![119u16, 104, 105, 116, 101]
        || s == seq![121u16, 101, 108, 108, 111, 119]
}

/// big, small or medium.
pub open spec fn size_name(s: Seq<u16>) -> bool {
    s == seq![98u16, 105, 103]
        || s == seq![115u16, 109, 97, 108, 108]
        || s == seq![109u16, 101, 100, 105, 117, 109]
}

/// left, right or center.
pub open spec fn alignment_name(s: Seq<u16>) -> bool {
    s == seq![108u16, 101, 102, 116]
        || s == seq![114u16, 105, 103, 104, 116]
        || s == seq![99u16, 101, 110, 116, 101, 114]
}

/// box.
pub open spec fn box_name(s: Seq<u16>) -> bool {
    s == seq![98u16, 111, 120]
}

/// blank.
pub open spec fn blank_name(s: Seq<u16>) -> bool {
    s == seq![98u16, 108, 97, 110, 107]
}

fn is_color_name(s: &Vec<u16>) -> (r: bool)
    ensures
        r == color_name(s@),
{
    units_eq(s, &vec![97, 113, 117, 97])
        || units_eq(s, &vec![98, 108, 117, 101])
        || units_eq(s, &vec![103, 114, 101, 101, 110])
        || units_eq(s, &vec![108, 105, 109, 101])
        || units_eq(s, &vec![111, 114, 97, 110, 103, 101])
        || units_eq(s, &vec![114, 101, 100])
        || units_eq(s, &vec![118, 105, 111, 108, 101, 116])
        || units_eq(s, &vec![119, 104, 105, 116, 101])
        || units_eq(s, &vec![121, 101, 108, 108, 111, 119])
}

fn is_size_name(s: &Vec<u16>) -> (r: bool)
    ensures
        r == size_name(s@),
{
    units_eq(s, &vec![98, 105, 103])
        || units_eq(s, &vec![115, 109, 97, 108, 108])
        || units_eq(s, &vec![109, 101, 100, 105, 117, 109])
}

fn is_alignment_name(s: &Vec<u16>) -> (r: bool)
    ensures
        r == alignment_name(s@),
{
    units_eq(s, &vec![108, 101, 102, 116])
        || units_eq(s, &vec![114, 105, 103, 104, 116])
        || units_eq(s, &vec![99, 101, 110, 116, 101, 114])
}

fn is_box_name(s: &Vec<u16>) -> (r: bool)
    ensures
        r == box_name(s@),
{
    units_eq(s, &vec![98, 111, 120])
}

fn is_blank_name(s: &Vec<u16>) -> (r: bool)
    ensures
        r == blank_name(s@),
{
    units_eq(s, &vec![98, 108, 97, 110, 107])
}

/// Equality of two buffers.
pub fn units_eq(a: &Vec<u16>, b: &Vec<u16>) -> (r: bool)
    ensures
        r == (a@ == b@),
{
    if a.len() != b.len() {
        return false;
    }
    let mut i: usize = 0;
    while i < a.len()
        invariant
            a@.len() == b@.len(),
            i <= a@.len(),
            forall|j: int| 0 <= j < i ==> a@[j] == b@[j],
        decreases a@.len() - i,
    {
        if a[i] != b[i] {
            return false;
        }
        i += 1;
    }
    proof {
        assert(a@ =~= b@);
    }
    true
}

/// `s` without spaces, lower-cased.
pub open spec fn tag_name(s: Seq<u16>) -> Seq<u16>
    decreases s.len(),
{
    if s.len() == 0 {
        s
    } else if s.last() == SPACE {
        tag_name(s.drop_last())
    } else {
        tag_name(s.drop_last()).push(lower(s.last()))
    }
}

/// The markup a tag name stands for, if it names anything.
pub open spec fn tag_markup(name: Seq<u16>) -> Option<Seq<u16>> {
    let rest = name.drop_first();
    if name.len() == 0 {
        None
    } else if color_name(name) || size_name(name) {
        Some(font_span_open() + name + attr_close())
    } else if alignment_name(name) {
        Some(align_div_open() + name + attr_close())
    } else if box_name(name) {
        Some(box_div())
    } else if blank_name(name) {
        Some(nbsp())
    } else if name[0] == SLASH && (color_name(rest) || size_name(rest)) {
        Some(span_close())
    } else if name[0] == SLASH && (alignment_name(rest) || box_name(rest)) {
        Some(div_close())
    } else {
        None
    }
}

/// The markup of the tag that starts at `i`, whose inner group ends at `e`.
pub open spec fn parsed_tag(s: Seq<u16>, i: int) -> Option<Seq<u16>> {
    match partner(s, i + 1, LEFT_SQUARE_BRACKET, RIGHT_SQUARE_BRACKET) {
        Some(e) => if i + 2 <= e {
            tag_markup(tag_name(s.subrange(i + 2, e)))
        } else {
            None
        },
        None => None,
    }
}

fn name_of(content: &Vec<u16>, lo: usize, hi: usize) -> (r: Vec<u16>)
    requires
        lo <= hi <= content@.len(),
    ensures
        r@ == tag_name(content@.subrange(lo as int, hi as int)),
{
    let mut r: Vec<u16> = Vec::new();
    let mut i: usize = lo;
    while i < hi
        invariant
            lo <= i <= hi <= content@.len(),
            r@ == tag_name(content@.subrange(lo as int, i as int)),
        decreases hi - i,
    {
        proof {
            assert(content@.subrange(lo as int, i + 1).drop_last() =~= content@.subrange(
                lo as int,
                i as int,
            ));
        }
        if content[i] != SPACE {
            r.push(lowercase(content[i]));
        }
        i += 1;
    }
    r
}

fn parse_tag(content: &Vec<u16>, index: usize) -> (r: Option<Vec<u16>>)
    requires
        tag_at(content@, index as int),
    ensures
        r matches Some(v) ==> parsed_tag(content@, index as int) == Some(v@),
        r is None ==> parsed_tag(content@, index as int) is None,
{
    let n = content.len();
    let inner: usize = index + 1;
    let end = match get_bracket_end_index(content, inner) {
        Some(e) => e,
        None => {
            return None;
        },
    };
    proof {
        lemma_partner_from_range(content@, index + 1, 0, LEFT_SQUARE_BRACKET, RIGHT_SQUARE_BRACKET);
    }
    if end < index + 2 {
        return None;
    }
    let name = name_of(content, index + 2, end);
    if name.len() == 0 {
        return None;
    }
    if is_color_name(&name) || is_size_name(&name) {
        let mut r = font_span_open_units();
        push_all(&mut r, &name);
        push_all(&mut r, &attr_close_units());
        return Some(r);
    }
    if is_alignment_name(&name) {
        let mut r = align_div_open_units();
        push_all(&mut r, &name);
        push_all(&mut r, &attr_close_units());
        return Some(r);
    }
    if is_box_name(&name) {
        return Some(box_div_units());
    }
    if is_blank_name(&name) {
        return Some(nbsp_units());
    }
    if name[0] == SLASH {
        let rest = copy_range(&name, 1, name.len());
        proof {
            assert(rest@ =~= name@.drop_first());
        }
        if is_color_name(&rest) || is_size_name(&rest) {
            return Some(span_close_units());
        }
        if is_alignment_name(&rest) || is_box_name(&rest) {
            return Some(div_close_units());
        }
    }
    None
}

/// Scans for tags from `i`, appending to `acc`; `last` starts the text not
/// yet emitted. A tag that names nothing stays as text.
pub open spec fn tags_from(s: Seq<u16>, i: int, last: int, acc: Seq<u16>) -> Seq<u16>
    decreases s.len() - i,
{
    if i < 0 || i >= s.len() {
        if 0 <= last < s.len() {
            acc + s.subrange(last, s.len() as int)
        } else {
            acc
        }
    } else if tag_at(s, i) && parsed_tag(s, i) is Some {
        let e = partner(s, i, LEFT_SQUARE_BRACKET, RIGHT_SQUARE_BRACKET).unwrap();
        if i < e && e < s.len() && 0 <= last <= i {
            tags_from(s, e + 1, e + 1, acc + s.subrange(last, i) + parsed_tag(s, i).unwrap())
        } else {
            acc
        }
    } else {
        tags_from(s, i + 1, last, acc)
    }
}

/// `s` with each tag that names something replaced by its markup.
pub open spec fn tagged(s: Seq<u16>) -> Seq<u16> {
    tags_from(s, 0, 0, Seq::empty())
}

/// Replaces the tags of `content` by their markup; the last stage of the inline cascade.
pub fn render_tag(content: &Vec<u16>) -> (r: Vec<u16>)
    ensures
        r@ == tagged(content@),
{
    let n = content.len();
    let mut r: Vec<u16> = Vec::new();
    let mut i: usize = 0;
    let mut last: usize = 0;
    while i < n
        invariant
            n == content@.len(),
            last <= i <= n,
            tags_from(content@, i as int, last as int, r@) == tagged(content@),
        decreases n - i,
    {
        if is_tag(content, i) {
            match parse_tag(content, i) {
                Some(t) => {
                    let e = get_bracket_end_index(content, i).unwrap();
                    proof {
                        lemma_partner_from_range(content@, i as int, 0, LEFT_SQUARE_BRACKET, RIGHT_SQUARE_BRACKET);
                        assert(e > i) by {
                            assert(content@[i as int] == LEFT_SQUARE_BRACKET);
                        }
                    }
                    let ghost acc0 = r@;
                    push_all(&mut r, &copy_range(content, last, i));
                    push_all(&mut r, &t);
                    proof {
                        assert(r@ =~= acc0 + content@.subrange(last as int, i as int) + t@);
                    }
                    last = e + 1;
                    i = e + 1;
                },
                None => {
                    i += 1;
                },
            }
        } else {
            i += 1;
        }
    }
    if last < n {
        push_all(&mut r, &copy_range(content, last, n));
    }
    r
}

proof fn lemma_tags_from_no_bracket(s: Seq<u16>, i: int)
    requires
        0 <= i <= s.len(),
        forall|j: int| 0 <= j < s.len() ==> s[j] != LEFT_SQUARE_BRACKET,
    ensures
        tags_from(s, i, 0, Seq::empty()) == tags_from(s, s.len() as int, 0, Seq::empty()),
    decreases s.len() - i,
{
    if i < s.len() {
        lemma_tags_from_no_bracket(s, i + 1);
    }
}

/// Text without `[` holds no tag: the tag pass gives it back unchanged.
pub proof fn lemma_tagged_no_bracket(s: Seq<u16>)
    requires
        forall|j: int| 0 <= j < s.len() ==> s[j] != LEFT_SQUARE_BRACKET,
    ensures
        tagged(s) == s,
{
    lemma_tags_from_no_bracket(s, 0);
    assert(Seq::<u16>::empty() + s.subrange(0, s.len() as int) =~= s);
}

/// Resolves whole-line tags; a tag line whose tag names nothing becomes a paragraph.
pub open spec fn independent_tag_resolved(l: LineView) -> LineView {
    if l.line_type == LineType::Tag {
        if tag_at(l.content, 0) && parsed_tag(l.content, 0) is Some {
            LineView { content: parsed_tag(l.content, 0).unwrap(), ..l }
        } else {
            LineView { line_type: LineType::Paragraph, ..l }
        }
    } else {
        l
    }
}

/// Resolves every whole-line tag.
pub fn render_independent_tag(lines: &Vec<Line>) -> (r: Vec<Line>)
    ensures
        views(r@) == views(lines@).map_values(|l: LineView| independent_tag_resolved(l)),
        r@.len() == lines@.len(),
        forall|k: int| 0 <= k < r@.len() ==> {
            let t = #[trigger] r@[k].line_type;
            t == lines@[k].line_type || (lines@[k].line_type == LineType::Tag && t == LineType::Paragraph)
        },
{
    let mut r: Vec<Line> = Vec::new();
    let mut i: usize = 0;
    while i < lines.len()
        invariant
            i <= lines@.len(),
            views(r@) == views(lines@.subrange(0, i as int)).map_values(|l: LineView| independent_tag_resolved(l)),
            r@.len() == i,
            forall|k: int| 0 <= k < i ==> {
                let t = #[trigger] r@[k].line_type;
                t == lines@[k].line_type || (lines@[k].line_type == LineType::Tag && t == LineType::Paragraph)
            },
        decreases lines@.len() - i,
    {
        let ln = &lines[i];
        let mut new_line = ln.copy();
        if ln.line_type == LineType::Tag {
            let ok = ln.content.len() > 0 && is_tag(&ln.content, 0);
            if ok {
                match parse_tag(&ln.content, 0) {
                    Some(c) => {
                        new_line.content = c;
                    },
                    None => {
                        new_line.line_type = LineType::Paragraph;
                    },
                }
            } else {
                new_line.line_type = LineType::Paragraph;
            }
        }
        proof {
            assert(new_line@ == independent_tag_resolved(lines@[i as int]@));
        }
        let ghost old_r = r@;
        r.push(new_line);
        proof {
            assert(views(r@) =~= views(old_r).push(r@[i as int]@));
            assert(views(lines@.subrange(0, i + 1)) =~= views(lines@.subrange(0, i as int)).push(lines@[i as int]@));
            assert(views(r@) =~= views(lines@.subrange(0, i + 1)).map_values(|l: LineView| independent_tag_resolved(l)));
        }
        i += 1;
    }
    proof {
        assert(lines@.subrange(0, lines@.len() as int) =~= lines@);
    }
    r
}

} // verus!
