//! The line classifier.
use vstd::prelude::*;
use crate::line::{Line, LineType, LineView};
use crate::tag::{is_tag, tag_at};
use crate::units::{
    ASTERISK, BACKTICK, BIG_A, BIG_I, COLON, DIGIT_1, DOT, GREATER_THAN, MINUS, SHARP, SMALL_A,
    SMALL_I, SPACE, TAB, UNDERBAR, VERTICAL_BAR, LEFT_SQUARE_BRACKET, RIGHT_SQUARE_BRACKET,
};
use crate::utils::{
    after_leading, drop_while, get_bracket_end_index, leading, partner, take_and_drop_while,
    lemma_leading_bounds,
};
use crate::blockquote::count_blockquote;

verus! {

/// Indent 0, one to six `#`, a space, and something more than spaces.
pub open spec fn header_line(l: LineView) -> bool {
    let post = after_leading(l.content, SHARP);
    &&& l.indent == 0
    &&& 0 < leading(l.content, SHARP) < 7
    &&& post.len() > 0
    &&& post[0] == SPACE
    &&& after_leading(post, SPACE).len() > 0
}

/// The number of units of `s` that equal `m`.
pub open spec fn occurrences(s: Seq<u16>, m: u16) -> nat
    decreases s.len(),
{
    if s.len() == 0 {
        0
    } else {
        occurrences(s.drop_last(), m) + if s.last() == m {
            1nat
        } else {
            0nat
        }
    }
}

/// Every unit of `s` is `m`, a space or a tab, and `m` occurs at least three times.
pub open spec fn break_of(s: Seq<u16>, m: u16) -> bool {
    &&& forall|j: int| 0 <= j < s.len() ==> (#[trigger] s[j] == m || s[j] == SPACE || s[j] == TAB)
    &&& occurrences(s, m) >= 3
}

/// Indent under 4, and only one of `*`, `-` or `_`, three times or more,
/// among spaces and tabs.
pub open spec fn thematic_break_line(l: LineView) -> bool {
    let c = l.content;
    &&& l.indent < 4
    &&& (break_of(c, ASTERISK) || break_of(c, MINUS) || break_of(c, UNDERBAR))
}

/// Indent 0 and three backticks first.
pub open spec fn code_fence_line(l: LineView) -> bool {
    l.indent == 0 && l.content.len() > 2 && l.content[0] == BACKTICK && l.content[1] == BACKTICK
        && l.content[2] == BACKTICK
}

/// Indent under 4, a run of `>` and a space after it.
pub open spec fn blockquote_line(l: LineView) -> bool {
    let rest = after_leading(l.content, GREATER_THAN);
    l.indent < 4 && l.content.len() > 0 && l.content[0] == GREATER_THAN && rest.len() > 0 && rest[0]
        == SPACE
}

/// `- ` first.
pub open spec fn unordered_list_line(l: LineView) -> bool {
    l.content.len() >= 2 && l.content[0] == MINUS && l.content[1] == SPACE
}

/// The units that can open an ordered list item.
pub open spec fn is_order_marker(c: u16) -> bool {
    c == DIGIT_1 || c == SMALL_A || c == SMALL_I || c == BIG_A || c == BIG_I
}

/// `1. `, `a. `, `i. `, `A. ` or `I. ` first.
pub open spec fn ordered_list_line(l: LineView) -> bool {
    l.content.len() >= 3 && is_order_marker(l.content[0]) && l.content[1] == DOT && l.content[2]
        == SPACE
}

/// Indent 0 and one `[[...]]` tag that spans the whole content.
pub open spec fn independent_tag_line(l: LineView) -> bool {
    l.indent == 0 && l.content.len() > 0 && tag_at(l.content, 0) && partner(
        l.content,
        0,
        LEFT_SQUARE_BRACKET,
        RIGHT_SQUARE_BRACKET,
    ) == Some(l.content.len() - 1)
}

/// Starts and ends with `|`, and holds only `:`, `-`, `|` and spaces.
pub open spec fn table_delimiter_line(l: LineView) -> bool {
    let c = l.content;
    &&& c.len() > 0
    &&& c[0] == VERTICAL_BAR
    &&& c.last() == VERTICAL_BAR
    &&& forall|j: int|
        0 <= j < c.len() ==> (c[j] == COLON || c[j] == MINUS || c[j] == VERTICAL_BAR || c[j]
            == SPACE)
}

/// The type of a line: the first rule that matches, in priority order.
pub open spec fn line_type_of(l: LineView) -> LineType {
    if header_line(l) {
        LineType::Header
    } else if thematic_break_line(l) {
        LineType::ThematicBreak
    } else if code_fence_line(l) {
        LineType::CodeFence
    } else if table_delimiter_line(l) {
        LineType::TableDelimiter
    } else if blockquote_line(l) {
        LineType::Blockquote(leading(l.content, GREATER_THAN) as usize)
    } else if l.content.len() == 0 {
        LineType::Empty
    } else if independent_tag_line(l) {
        LineType::Tag
    } else if unordered_list_line(l) {
        LineType::UnorderedList
    } else if ordered_list_line(l) {
        LineType::OrderedList
    } else {
        LineType::Paragraph
    }
}

/// Classifies a line.
pub fn get_type(line: &Line) -> (r: LineType)
    ensures
        r == line_type_of(line@),
{
    if is_header(line) {
        LineType::Header
    } else if is_thematic_break(line) {
        LineType::ThematicBreak
    } else if is_code_fence(line) {
        LineType::CodeFence
    } else if is_table_delimiter(line) {
        LineType::TableDelimiter
    } else if is_blockquote(line) {
        LineType::Blockquote(count_blockquote(line))
    } else if is_empty(line) {
        LineType::Empty
    } else if is_independent_tag(line) {
        LineType::Tag
    } else if is_unordered_list(line) {
        LineType::UnorderedList
    } else if is_ordered_list(line) {
        LineType::OrderedList
    } else {
        LineType::Paragraph
    }
}

fn is_header(line: &Line) -> (r: bool)
    ensures
        r == header_line(line@),
{
    if line.indent != 0 {
        return false;
    }
    let (pre, post) = take_and_drop_while(&line.content, SHARP);
    pre.len() > 0 && pre.len() < 7 && post.len() > 0 && post[0] == SPACE && drop_while(
        &post,
        SPACE,
    ).len() > 0
}

fn is_break_of(c: &Vec<u16>, m: u16) -> (r: bool)
    ensures
        r == break_of(c@, m),
{
    let mut count: usize = 0;
    let mut i: usize = 0;
    while i < c.len()
        invariant
            i <= c@.len(),
            count == occurrences(c@.subrange(0, i as int), m),
            count <= i,
            forall|j: int| 0 <= j < i ==> (#[trigger] c@[j] == m || c@[j] == SPACE || c@[j] == TAB),
        decreases c@.len() - i,
    {
        let u = c[i];
        if u != m && u != SPACE && u != TAB {
            return false;
        }
        proof {
            assert(c@.subrange(0, i + 1).drop_last() =~= c@.subrange(0, i as int));
        }
        if u == m {
            count += 1;
        }
        i += 1;
    }
    proof {
        assert(c@.subrange(0, c@.len() as int) =~= c@);
    }
    count >= 3
}

fn is_thematic_break(line: &Line) -> (r: bool)
    ensures
        r == thematic_break_line(line@),
{
    line.indent < 4 && (is_break_of(&line.content, ASTERISK) || is_break_of(&line.content, MINUS)
        || is_break_of(&line.content, UNDERBAR))
}

fn is_code_fence(line: &Line) -> (r: bool)
    ensures
        r == code_fence_line(line@),
{
    line.indent == 0 && line.content.len() > 2 && line.content[0] == BACKTICK && line.content[1]
        == BACKTICK && line.content[2] == BACKTICK
}

fn is_blockquote(line: &Line) -> (r: bool)
    ensures
        r == blockquote_line(line@),
{
    if !(line.indent < 4 && line.content.len() > 0 && line.content[0] == GREATER_THAN) {
        return false;
    }
    let content = drop_while(&line.content, GREATER_THAN);
    content.len() > 0 && content[0] == SPACE
}

fn is_unordered_list(line: &Line) -> (r: bool)
    ensures
        r == unordered_list_line(line@),
{
    line.content.len() >= 2 && line.content[0] == MINUS && line.content[1] == SPACE
}

fn is_ordered_list(line: &Line) -> (r: bool)
    ensures
        r == ordered_list_line(line@),
{
    line.content.len() >= 3 && (line.content[0] == DIGIT_1 || line.content[0] == SMALL_A
        || line.content[0] == SMALL_I || line.content[0] == BIG_A || line.content[0] == BIG_I)
        && line.content[1] == DOT && line.content[2] == SPACE
}

fn is_independent_tag(line: &Line) -> (r: bool)
    ensures
        r == independent_tag_line(line@),
{
    if !(line.indent == 0 && line.content.len() > 0 && is_tag(&line.content, 0)) {
        return false;
    }
    match get_bracket_end_index(&line.content, 0) {
        Some(end) => end == line.content.len() - 1,
        None => false,
    }
}

fn is_table_delimiter(line: &Line) -> (r: bool)
    ensures
        r == table_delimiter_line(line@),
{
    let n = line.content.len();
    if n == 0 || line.content[0] != VERTICAL_BAR || line.content[n - 1] != VERTICAL_BAR {
        return false;
    }
    let mut i: usize = 0;
    while i < n
        invariant
            n == line.content@.len(),
            i <= n,
            forall|j: int|
                0 <= j < i ==> (line.content@[j] == COLON || line.content@[j] == MINUS
                    || line.content@[j] == VERTICAL_BAR || line.content@[j] == SPACE),
        decreases n - i,
    {
        let c = line.content[i];
        if c != COLON && c != MINUS && c != VERTICAL_BAR && c != SPACE {
            return false;
        }
        i += 1;
    }
    true
}

fn is_empty(line: &Line) -> (r: bool)
    ensures
        r == (line@.content.len() == 0),
{
    line.content.len() == 0
}

/// Headers go six levels deep: a line that opens with seven or more `#` is
/// no header.
pub proof fn lemma_header_depth_limit(l: LineView)
    requires
        leading(l.content, SHARP) >= 7,
    ensures
        line_type_of(l) != LineType::Header,
{
}

/// A line of at least three `*`, `-` or `_`, all the same, among spaces and
/// tabs, indented less than four columns, is a thematic break.
pub proof fn lemma_thematic_break(l: LineView, m: u16)
    requires
        l.indent < 4,
        m == ASTERISK || m == MINUS || m == UNDERBAR,
        break_of(l.content, m),
    ensures
        line_type_of(l) == LineType::ThematicBreak,
{
    let c = l.content;
    if c.len() == 0 {
        assert(occurrences(c, m) == 0);
    }
    assert(c[0] == m || c[0] == SPACE || c[0] == TAB);
    lemma_leading_bounds(c, SHARP);
    if leading(c, SHARP) > 0 {
        assert(c[0] == SHARP);
    }
}

/// A line that holds two different units besides spaces and tabs is no
/// thematic break.
pub proof fn lemma_mixed_markers_no_break(l: LineView, j: int, k: int)
    requires
        0 <= j < l.content.len(),
        0 <= k < l.content.len(),
        l.content[j] != l.content[k],
        l.content[j] != SPACE && l.content[j] != TAB,
        l.content[k] != SPACE && l.content[k] != TAB,
    ensures
        !thematic_break_line(l),
{
    let c = l.content;
    assert(c[j] == c[j] && c[k] == c[k]);
}

} // verus!
