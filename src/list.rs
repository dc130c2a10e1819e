//! Lists: items nested by indentation, ordered or not, with task boxes.
use vstd::prelude::*;
use crate::line::{Line, LineType, LineView, views};
use crate::markup::{
    checked_box, checked_box_units, li_close, li_close_units, li_open, li_open_units, ol_alpha_low_open,
    ol_alpha_low_open_units, ol_alpha_upper_open, ol_alpha_upper_open_units, ol_close,
    ol_close_units, ol_num_open, ol_num_open_units, ol_roman_low_open, ol_roman_low_open_units,
    ol_roman_upper_open, ol_roman_upper_open_units, ul_close, ul_close_units, ul_open,
    ul_open_units, unchecked_box, unchecked_box_units,
};
use crate::paragraph::all_renderable;
use crate::units::{
    BIG_A, BIG_I, BIG_X, DIGIT_1, LEFT_SQUARE_BRACKET, RIGHT_SQUARE_BRACKET, SMALL_A, SMALL_I,
    SMALL_X, SPACE,
};
use crate::utils::{copy_range, piece_views, push_all};

verus! {

/// The kind of a list: unordered, or the numbering of an ordered one.
#[derive(Clone, Copy, Debug, PartialEq, Eq, Structural)]
pub enum ListOrder {
    Unordered,
    Num,
    AlphaLow,
    AlphaUpper,
    RomanLow,
    RomanUpper,
}

/// The tag that opens a list of kind `o`.
pub open spec fn opening(o: ListOrder) -> Seq<u16> {
    match o {
        ListOrder::Unordered => ul_open(),
        ListOrder::Num => ol_num_open(),
        ListOrder::AlphaLow => ol_alpha_low_open(),
        ListOrder::AlphaUpper => ol_alpha_upper_open(),
        ListOrder::RomanLow => ol_roman_low_open(),
        ListOrder::RomanUpper => ol_roman_upper_open(),
    }
}

/// The tag that closes a list of kind `o`.
pub open spec fn closing(o: ListOrder) -> Seq<u16> {
    match o {
        ListOrder::Unordered => ul_close(),
        _ => ol_close(),
    }
}

impl ListOrder {
    fn opening_tag(&self) -> (r: Vec<u16>)
        ensures
            r@ == opening(*self),
    {
        match self {
            ListOrder::Unordered => ul_open_units(),
            ListOrder::Num => ol_num_open_units(),
            ListOrder::AlphaLow => ol_alpha_low_open_units(),
            ListOrder::AlphaUpper => ol_alpha_upper_open_units(),
            ListOrder::RomanLow => ol_roman_low_open_units(),
            ListOrder::RomanUpper => ol_roman_upper_open_units(),
        }
    }

    fn closing_tag(&self) -> (r: Vec<u16>)
        ensures
            r@ == closing(*self),
    {
        match self {
            ListOrder::Unordered => ul_close_units(),
            _ => ol_close_units(),
        }
    }
}

/// The kind of list that a line opens: from the marker of an ordered item
/// (`1`, `a`, `A`, `i`, `I`), unordered otherwise.
pub open spec fn list_order(l: LineView) -> ListOrder {
    if l.line_type == LineType::OrderedList && l.content.len() > 0 {
        let c = l.content[0];
        if c == DIGIT_1 {
            ListOrder::Num
        } else if c == SMALL_A {
            ListOrder::AlphaLow
        } else if c == BIG_A {
            ListOrder::AlphaUpper
        } else if c == SMALL_I {
            ListOrder::RomanLow
        } else if c == BIG_I {
            ListOrder::RomanUpper
        } else {
            ListOrder::Unordered
        }
    } else {
        ListOrder::Unordered
    }
}

/// The text of a list item: without `- ` or the ordered marker and `. `.
pub open spec fn list_content(l: LineView) -> Seq<u16> {
    let c = l.content;
    if l.line_type == LineType::UnorderedList {
        if c.len() >= 2 {
            c.subrange(2, c.len() as int)
        } else {
            Seq::empty()
        }
    } else if l.line_type == LineType::OrderedList {
        if c.len() >= 3 {
            c.subrange(3, c.len() as int)
        } else {
            Seq::empty()
        }
    } else {
        c
    }
}

impl Line {
    fn get_list_ordering(&self) -> (r: ListOrder)
        ensures
            r == list_order(self@),
    {
        if self.line_type == LineType::OrderedList && self.content.len() > 0 {
            let c = self.content[0];
            if c == DIGIT_1 {
                ListOrder::Num
            } else if c == SMALL_A {
                ListOrder::AlphaLow
            } else if c == BIG_A {
                ListOrder::AlphaUpper
            } else if c == SMALL_I {
                ListOrder::RomanLow
            } else if c == BIG_I {
                ListOrder::RomanUpper
            } else {
                ListOrder::Unordered
            }
        } else {
            ListOrder::Unordered
        }
    }

    fn get_list_content(&self) -> (r: Vec<u16>)
        ensures
            r@ == list_content(self@),
    {
        let n = self.content.len();
        if self.line_type == LineType::UnorderedList {
            if n >= 2 {
                copy_range(&self.content, 2, n)
            } else {
                Vec::new()
            }
        } else if self.line_type == LineType::OrderedList {
            if n >= 3 {
                copy_range(&self.content, 3, n)
            } else {
                Vec::new()
            }
        } else {
            copy_range(&self.content, 0, n)
        }
    }
}

/// `[ ] `, `[x] ` or `[X] ` first.
pub open spec fn task_list(c: Seq<u16>) -> bool {
    c.len() > 3 && c[0] == LEFT_SQUARE_BRACKET && (c[1] == SPACE || c[1] == SMALL_X || c[1]
        == BIG_X) && c[2] == RIGHT_SQUARE_BRACKET && c[3] == SPACE
}

/// An item's text, with a task marker turned into a checkbox.
pub open spec fn task_item(c: Seq<u16>) -> Seq<u16> {
    if task_list(c) {
        (if c[1] == SPACE {
            unchecked_box()
        } else {
            checked_box()
        }) + c.subrange(3, c.len() as int)
    } else {
        c
    }
}

fn is_task_list(line: &Vec<u16>) -> (r: bool)
    ensures
        r == task_list(line@),
{
    line.len() > 3 && line[0] == LEFT_SQUARE_BRACKET && (line[1] == SPACE || line[1] == SMALL_X
        || line[1] == BIG_X) && line[2] == RIGHT_SQUARE_BRACKET && line[3] == SPACE
}

fn render_task_list(line: Vec<u16>) -> (r: Vec<u16>)
    ensures
        r@ == task_item(line@),
{
    if is_task_list(&line) {
        let mut r = if line[1] == SPACE {
            unchecked_box_units()
        } else {
            checked_box_units()
        };
        push_all(&mut r, &copy_range(&line, 3, line.len()));
        r
    } else {
        line
    }
}

/// The pieces of a list, from line `i`, at indentation `cur`, of kind `o`:
/// deeper lines open a nested list inside the last item, shallower ones end
/// this list. Gives the index where this list ended and its pieces.
pub open spec fn list_from(
    ls: Seq<LineView>,
    i: int,
    cur: nat,
    o: ListOrder,
    pieces: Seq<Seq<u16>>,
) -> (int, Seq<Seq<u16>>)
    decreases (ls.len() - i) * 2 + if 0 <= i < ls.len() && ls[i].indent > cur {
        1int
    } else {
        0int
    },
{
    if i < 0 || i >= ls.len() {
        (ls.len() as int, pieces.push(closing(o)))
    } else if ls[i].indent < cur {
        (i, pieces.push(closing(o)))
    } else if ls[i].indent > cur {
        let inner_order = list_order(ls[i]);
        let sub = list_from(ls, i, ls[i].indent, inner_order, seq![opening(inner_order)]);
        let kept = if pieces.len() > 0 {
            pieces.drop_last()
        } else {
            pieces
        };
        if i < sub.0 <= ls.len() {
            list_from(ls, sub.0, cur, o, kept.push(sub.1.flatten()).push(li_close()))
        } else {
            (ls.len() as int, pieces)
        }
    } else {
        list_from(
            ls,
            i + 1,
            cur,
            o,
            pieces.push(li_open()).push(task_item(list_content(ls[i]))).push(li_close()),
        )
    }
}

proof fn lemma_list_keeps_first_piece(
    ls: Seq<LineView>,
    i: int,
    cur: nat,
    o: ListOrder,
    pieces: Seq<Seq<u16>>,
)
    requires
        0 <= i <= ls.len(),
        pieces.len() >= 1,
        pieces.len() >= 2 || i == ls.len() || ls[i].indent <= cur,
    ensures
        list_from(ls, i, cur, o, pieces).1.len() >= 1,
        list_from(ls, i, cur, o, pieces).1[0] == pieces[0],
    decreases (ls.len() - i) * 2 + if 0 <= i < ls.len() && ls[i].indent > cur {
        1int
    } else {
        0int
    },
{
    if i < ls.len() && ls[i].indent >= cur {
        if ls[i].indent > cur {
            let inner_order = list_order(ls[i]);
            let sub = list_from(ls, i, ls[i].indent, inner_order, seq![opening(inner_order)]);
            let kept = pieces.drop_last();
            if i < sub.0 <= ls.len() {
                let next = kept.push(sub.1.flatten()).push(li_close());
                assert(next[0] == pieces[0]);
                lemma_list_keeps_first_piece(ls, sub.0, cur, o, next);
            }
        } else {
            let next = pieces.push(li_open()).push(task_item(list_content(ls[i]))).push(li_close());
            assert(next[0] == pieces[0]);
            lemma_list_keeps_first_piece(ls, i + 1, cur, o, next);
        }
    }
}

/// Every list opens with the tag of the kind its first item gives: the list
/// line of a run opens as its first item's marker says, and so does each
/// nested list, from the first item at its indentation.
pub proof fn lemma_list_opens_with_first_marker(ls: Seq<LineView>, i: int)
    requires
        0 <= i < ls.len(),
    ensures
        ({
            let o = list_order(ls[i]);
            let pieces = list_from(ls, i, ls[i].indent, o, seq![opening(o)]).1;
            pieces.flatten().subrange(0, opening(o).len() as int) == opening(o)
        }),
{
    let o = list_order(ls[i]);
    lemma_list_keeps_first_piece(ls, i, ls[i].indent, o, seq![opening(o)]);
    let pieces = list_from(ls, i, ls[i].indent, o, seq![opening(o)]).1;
    assert(pieces.flatten() == pieces[0] + pieces.drop_first().flatten());
    assert((pieces[0] + pieces.drop_first().flatten()).subrange(0, opening(o).len() as int) =~= opening(o));
}

fn concat(pieces: &Vec<Vec<u16>>) -> (r: Vec<u16>)
    ensures
        r@ == piece_views(pieces@).flatten(),
{
    let ghost ps = piece_views(pieces@);
    let mut r: Vec<u16> = Vec::new();
    let mut i: usize = 0;
    proof {
        assert(ps.subrange(0, ps.len() as int) =~= ps);
    }
    while i < pieces.len()
        invariant
            ps == piece_views(pieces@),
            i <= pieces@.len(),
            r@ + ps.subrange(i as int, ps.len() as int).flatten() == ps.flatten(),
        decreases pieces@.len() - i,
    {
        let ghost rest = ps.subrange(i as int, ps.len() as int);
        let ghost r0 = r@;
        push_all(&mut r, &pieces[i]);
        proof {
            assert(rest.drop_first() =~= ps.subrange(i + 1, ps.len() as int));
            assert(rest.first() == pieces@[i as int]@);
            assert(r@ + rest.drop_first().flatten() =~= r0 + rest.flatten());
        }
        i += 1;
    }
    proof {
        assert(ps.subrange(ps.len() as int, ps.len() as int) =~= Seq::<Seq<u16>>::empty());
        assert(r@ + Seq::<u16>::empty() =~= r@);
    }
    r
}

fn construct_list_recursive(
    lines: &Vec<Line>,
    begin_index: usize,
    curr_indent: usize,
    ordering: ListOrder,
) -> (r: (usize, Vec<u16>))
    requires
        begin_index <= lines@.len(),
    ensures
        r.0 as int == list_from(views(lines@), begin_index as int, curr_indent as nat, ordering, seq![opening(ordering)]).0,
        r.1@ == list_from(views(lines@), begin_index as int, curr_indent as nat, ordering, seq![opening(ordering)]).1.flatten(),
        begin_index <= r.0 <= lines@.len(),
        begin_index < lines@.len() && lines@[begin_index as int].indent >= curr_indent ==> begin_index < r.0,
    decreases (lines@.len() - begin_index) * 2 + if begin_index < lines@.len() && lines@[begin_index as int].indent > curr_indent {
        1int
    } else {
        0int
    },
{
    let ghost ls = views(lines@);
    let ghost start = list_from(ls, begin_index as int, curr_indent as nat, ordering, seq![opening(ordering)]);
    let mut result: Vec<Vec<u16>> = Vec::new();
    result.push(ordering.opening_tag());
    let mut index: usize = begin_index;
    proof {
        assert(piece_views(result@) =~= seq![opening(ordering)]);
    }
    while index < lines.len()
        invariant
            ls == views(lines@),
            start == list_from(ls, begin_index as int, curr_indent as nat, ordering, seq![opening(ordering)]),
            begin_index <= index <= lines@.len(),
            index == begin_index || (begin_index < lines@.len() && lines@[begin_index as int].indent >= curr_indent),
            list_from(ls, index as int, curr_indent as nat, ordering, piece_views(result@)) == start,
        decreases lines@.len() - index,
    {
        let ln = &lines[index];
        let ghost ps0 = piece_views(result@);
        proof {
            assert(ls[index as int] == ln@);
        }
        if ln.indent < curr_indent {
            result.push(ordering.closing_tag());
            proof {
                assert(piece_views(result@) =~= ps0.push(closing(ordering)));
            }
            let content = concat(&result);
            proof {
                assert(list_from(ls, index as int, curr_indent as nat, ordering, ps0) == (
                    index as int,
                    ps0.push(closing(ordering)),
                ));
                assert(start == (index as int, ps0.push(closing(ordering))));
            }
            return (index, content);
        } else if ln.indent > curr_indent {
            result.pop();
            proof {
                if ps0.len() > 0 {
                    assert(piece_views(result@) =~= ps0.drop_last());
                } else {
                    assert(piece_views(result@) =~= ps0);
                }
            }
            let (next_index, content) = construct_list_recursive(
                lines,
                index,
                ln.indent,
                ln.get_list_ordering(),
            );
            let ghost kept = piece_views(result@);
            result.push(content);
            result.push(li_close_units());
            proof {
                assert(piece_views(result@) =~= kept.push(content@).push(li_close()));
            }
            index = next_index;
        } else {
            result.push(li_open_units());
            result.push(render_task_list(ln.get_list_content()));
            result.push(li_close_units());
            proof {
                assert(piece_views(result@) =~= ps0.push(li_open()).push(
                    task_item(list_content(ls[index as int])),
                ).push(li_close()));
            }
            index += 1;
        }
    }
    let ghost ps0 = piece_views(result@);
    result.push(ordering.closing_tag());
    proof {
        assert(piece_views(result@) =~= ps0.push(closing(ordering)));
    }
    let content = concat(&result);
    (lines.len(), content)
}

/// List lines from `i` with each paragraph line appended, after a space, to
/// the item just before it, and dropped.
pub open spec fn absorbed_from(ls: Seq<LineView>, i: int, acc: Seq<LineView>) -> Seq<LineView>
    decreases ls.len() - i,
{
    if i < 0 || i >= ls.len() {
        acc
    } else if ls[i].line_type == LineType::Paragraph {
        absorbed_from(ls, i + 1, acc)
    } else if i + 1 < ls.len() && ls[i + 1].line_type == LineType::Paragraph {
        absorbed_from(
            ls,
            i + 1,
            acc.push(LineView { content: ls[i].content + seq![SPACE] + ls[i + 1].content, ..ls[i] }),
        )
    } else {
        absorbed_from(ls, i + 1, acc.push(ls[i]))
    }
}

/// The items of a list run, with lazy continuation lines absorbed.
pub open spec fn absorbed(ls: Seq<LineView>) -> Seq<LineView> {
    absorbed_from(ls, 0, Seq::empty())
}

fn merge_paragraph_to_list(lines: &Vec<Line>) -> (r: Vec<Line>)
    ensures
        views(r@) == absorbed(views(lines@)),
{
    let ghost ls = views(lines@);
    let mut r: Vec<Line> = Vec::new();
    let mut i: usize = 0;
    proof {
        assert(views(r@) =~= Seq::<LineView>::empty());
    }
    while i < lines.len()
        invariant
            ls == views(lines@),
            i <= lines@.len(),
            absorbed_from(ls, i as int, views(r@)) == absorbed(ls),
        decreases lines@.len() - i,
    {
        let ghost acc0 = views(r@);
        proof {
            assert(ls[i as int] == lines@[i as int]@);
        }
        if lines[i].line_type != LineType::Paragraph {
            let mut ln = lines[i].copy();
            if i + 1 < lines.len() && lines[i + 1].line_type == LineType::Paragraph {
                proof {
                    assert(ls[i + 1] == lines@[i + 1]@);
                }
                let space: Vec<u16> = vec![SPACE];
                push_all(&mut ln.content, &space);
                push_all(&mut ln.content, &lines[i + 1].content);
            }
            let ghost lv = ln@;
            r.push(ln);
            proof {
                assert(views(r@) =~= acc0.push(lv));
                if i + 1 < lines@.len() && ls[i + 1].line_type == LineType::Paragraph {
                    assert(lv.content =~= ls[i as int].content + seq![SPACE] + ls[i + 1].content);
                    assert(lv == LineView {
                        content: ls[i as int].content + seq![SPACE] + ls[i + 1].content,
                        ..ls[i as int]
                    });
                } else {
                    assert(lv == ls[i as int]);
                }
            }
        }
        i += 1;
    }
    r
}

/// The list line made of a run of list lines and their continuations.
pub open spec fn list_of(ps: Seq<LineView>) -> LineView {
    let a = absorbed(ps);
    let content = if a.len() == 0 {
        Seq::empty()
    } else {
        list_from(a, 0, a[0].indent, list_order(a[0]), seq![opening(list_order(a[0]))]).1.flatten()
    };
    LineView { content, indent: 0, line_type: LineType::UnorderedList }
}

fn construct_list(lines: &Vec<Line>) -> (r: Line)
    ensures
        r@ == list_of(views(lines@)),
{
    let items = merge_paragraph_to_list(lines);
    if items.len() == 0 {
        return Line { content: Vec::new(), indent: 0, line_type: LineType::UnorderedList };
    }
    proof {
        assert(views(items@)[0] == items@[0]@);
    }
    let (_, content) = construct_list_recursive(
        &items,
        0,
        items[0].indent,
        items[0].get_list_ordering(),
    );
    Line { line_type: LineType::UnorderedList, content, indent: 0 }
}

/// A list item line.
pub open spec fn is_list_type(t: LineType) -> bool {
    t == LineType::UnorderedList || t == LineType::OrderedList
}

/// `acc` with the pending list `cur` closed, if there is one.
pub open spec fn flush_list(cur: Seq<LineView>, acc: Seq<LineView>) -> Seq<LineView> {
    if cur.len() > 0 {
        acc.push(list_of(cur))
    } else {
        acc
    }
}

/// Merging lists from line `i`; a paragraph line inside a list run continues it.
pub open spec fn lists_from(
    ls: Seq<LineView>,
    i: int,
    cur: Seq<LineView>,
    acc: Seq<LineView>,
) -> Seq<LineView>
    decreases ls.len() - i,
{
    if i < 0 || i >= ls.len() {
        flush_list(cur, acc)
    } else if is_list_type(ls[i].line_type) || (ls[i].line_type == LineType::Paragraph && cur.len()
        > 0) {
        lists_from(ls, i + 1, cur.push(ls[i]), acc)
    } else if ls[i].line_type == LineType::Paragraph {
        lists_from(ls, i + 1, cur, acc.push(ls[i]))
    } else {
        lists_from(ls, i + 1, Seq::empty(), flush_list(cur, acc).push(ls[i]))
    }
}

/// `ls` with each run of list lines, and their continuations, merged into one line.
pub open spec fn merged_lists(ls: Seq<LineView>) -> Seq<LineView> {
    lists_from(ls, 0, Seq::empty(), Seq::empty())
}

/// Merges each run of list lines, with their continuations, into one nested list.
pub fn merge_list(lines: &Vec<Line>) -> (r: Vec<Line>)
    ensures
        views(r@) == merged_lists(views(lines@)),
        all_renderable(lines@) ==> all_renderable(r@),
{
    let ghost ls = views(lines@);
    let mut cur: Vec<Line> = Vec::new();
    let mut r: Vec<Line> = Vec::new();
    let mut i: usize = 0;
    proof {
        assert(views(cur@) =~= Seq::<LineView>::empty());
        assert(views(r@) =~= Seq::<LineView>::empty());
    }
    while i < lines.len()
        invariant
            ls == views(lines@),
            i <= lines@.len(),
            lists_from(ls, i as int, views(cur@), views(r@)) == merged_lists(ls),
            all_renderable(lines@) ==> all_renderable(r@),
        decreases lines@.len() - i,
    {
        let ghost cur0 = views(cur@);
        let ghost acc0 = views(r@);
        let t = lines[i].line_type;
        if t == LineType::UnorderedList || t == LineType::OrderedList || (t == LineType::Paragraph
            && cur.len() > 0) {
            cur.push(lines[i].copy());
            proof {
                assert(views(cur@) =~= cur0.push(ls[i as int]));
            }
        } else if t == LineType::Paragraph {
            r.push(lines[i].copy());
            proof {
                assert(views(r@) =~= acc0.push(ls[i as int]));
            }
        } else {
            if cur.len() > 0 {
                let q = construct_list(&cur);
                r.push(q);
                cur = Vec::new();
            }
            proof {
                assert(views(r@) =~= flush_list(cur0, acc0));
            }
            let ghost acc1 = views(r@);
            r.push(lines[i].copy());
            proof {
                assert(views(r@) =~= acc1.push(ls[i as int]));
                assert(views(cur@) =~= Seq::<LineView>::empty());
            }
        }
        i += 1;
    }
    let ghost cur0 = views(cur@);
    let ghost acc0 = views(r@);
    if cur.len() > 0 {
        let q = construct_list(&cur);
        r.push(q);
    }
    proof {
        assert(views(r@) =~= flush_list(cur0, acc0));
    }
    r
}

proof fn lemma_list_from_end(ls: Seq<LineView>, i: int, cur: nat, o: ListOrder, pieces: Seq<Seq<u16>>)
    requires
        0 <= i <= ls.len(),
    ensures
        ({
            let r = list_from(ls, i, cur, o, pieces);
            &&& i <= r.0 <= ls.len()
            &&& (i < ls.len() && ls[i].indent >= cur) ==> i < r.0
            &&& (forall|j: int| i <= j < ls.len() ==> #[trigger] ls[j].indent >= cur) ==> (r.0
                == ls.len() && r.1.len() > 0 && r.1.last() == closing(o))
        }),
    decreases (ls.len() - i) * 2 + if 0 <= i < ls.len() && ls[i].indent > cur {
        1int
    } else {
        0int
    },
{
    if i < ls.len() && ls[i].indent >= cur {
        if ls[i].indent > cur {
            let inner_order = list_order(ls[i]);
            lemma_list_from_end(ls, i, ls[i].indent, inner_order, seq![opening(inner_order)]);
            let sub = list_from(ls, i, ls[i].indent, inner_order, seq![opening(inner_order)]);
            let kept = if pieces.len() > 0 {
                pieces.drop_last()
            } else {
                pieces
            };
            lemma_list_from_end(ls, sub.0, cur, o, kept.push(sub.1.flatten()).push(li_close()));
        } else {
            lemma_list_from_end(
                ls,
                i + 1,
                cur,
                o,
                pieces.push(li_open()).push(task_item(list_content(ls[i]))).push(li_close()),
            );
        }
    }
}

proof fn lemma_absorbed_items(ls: Seq<LineView>, i: int, acc: Seq<LineView>)
    requires
        0 <= i <= ls.len(),
        forall|j: int| 0 <= j < ls.len() ==> is_list_type(#[trigger] ls[j].line_type),
    ensures
        absorbed_from(ls, i, acc) == acc + ls.subrange(i, ls.len() as int),
    decreases ls.len() - i,
{
    if i < ls.len() {
        assert(is_list_type(ls[i].line_type));
        if i + 1 < ls.len() {
            assert(is_list_type(ls[i + 1].line_type));
        }
        lemma_absorbed_items(ls, i + 1, acc.push(ls[i]));
        assert(acc.push(ls[i]) + ls.subrange(i + 1, ls.len() as int) =~= acc + ls.subrange(
            i,
            ls.len() as int,
        ));
    } else {
        assert(acc + ls.subrange(i, ls.len() as int) =~= acc);
    }
}

proof fn lemma_list_run(ls: Seq<LineView>, i: int, cur: Seq<LineView>)
    requires
        0 <= i <= ls.len(),
        forall|j: int| 0 <= j < ls.len() ==> is_list_type(#[trigger] ls[j].line_type),
    ensures
        lists_from(ls, i, cur, Seq::empty()) == flush_list(
            cur + ls.subrange(i, ls.len() as int),
            Seq::empty(),
        ),
    decreases ls.len() - i,
{
    if i < ls.len() {
        assert(is_list_type(ls[i].line_type));
        lemma_list_run(ls, i + 1, cur.push(ls[i]));
        assert(cur.push(ls[i]) + ls.subrange(i + 1, ls.len() as int) =~= cur + ls.subrange(
            i,
            ls.len() as int,
        ));
    } else {
        assert(cur + ls.subrange(i, ls.len() as int) =~= cur);
    }
}

/// A run of list items, none indented less than the first, becomes one
/// list line. It opens with the tag of the first item's marker (`-` gives
/// `<ul>`, `1`, `a`, `A`, `i`, `I` give `<ol>` of that type) and ends with
/// the matching closing tag; each nested list likewise opens with its own
/// first item's tag.
pub proof fn lemma_list_run_is_one_list(ls: Seq<LineView>)
    requires
        ls.len() > 0,
        forall|j: int| 0 <= j < ls.len() ==> is_list_type(#[trigger] ls[j].line_type),
        forall|j: int| 0 <= j < ls.len() ==> #[trigger] ls[j].indent >= ls[0].indent,
    ensures
        merged_lists(ls) == seq![list_of(ls)],
        ({
            let o = list_order(ls[0]);
            let c = list_of(ls).content;
            &&& opening(o).len() <= c.len()
            &&& c.subrange(0, opening(o).len() as int) == opening(o)
            &&& closing(o).len() <= c.len()
            &&& c.subrange(c.len() - closing(o).len(), c.len() as int) == closing(o)
        }),
{
    lemma_list_run(ls, 0, Seq::empty());
    assert(Seq::<LineView>::empty() + ls.subrange(0, ls.len() as int) =~= ls);
    assert(Seq::<LineView>::empty().push(list_of(ls)) =~= seq![list_of(ls)]);
    lemma_absorbed_items(ls, 0, Seq::empty());
    assert(absorbed(ls) == ls);
    let o = list_order(ls[0]);
    lemma_list_opens_with_first_marker(ls, 0);
    lemma_list_from_end(ls, 0, ls[0].indent, o, seq![opening(o)]);
    let pieces = list_from(ls, 0, ls[0].indent, o, seq![opening(o)]).1;
    let c = pieces.flatten();
    assert(pieces.drop_last().push(pieces.last()) =~= pieces);
    pieces.drop_last().lemma_flatten_push(pieces.last());
    assert(c == pieces.drop_last().flatten() + closing(o));
    assert(c.subrange(c.len() - closing(o).len(), c.len() as int) =~= closing(o));
    lemma_list_keeps_first_piece(ls, 0, ls[0].indent, o, seq![opening(o)]);
    assert(c == pieces[0] + pieces.drop_first().flatten());
}

} // verus!
