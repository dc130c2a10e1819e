//! Tables: a header row, a delimiter row that sets the alignments, body rows.
use vstd::prelude::*;
use crate::inline::{inline_rendered, render_inline};
use crate::line::{Line, LineType, LineView, views};
use crate::markup::{
    table_close, table_close_units, table_open, table_open_units, tbody_close, tbody_close_units,
    tbody_open, tbody_open_units, td_center, td_center_units, td_close, td_close_units, td_left,
    td_left_units, td_right, td_right_units, th_close, th_close_units, th_open, th_open_units,
    thead_close, thead_close_units, thead_open, thead_open_units, tr_close, tr_close_units,
    tr_open, tr_open_units,
};
use crate::paragraph::all_renderable;
use crate::units::{COLON, VERTICAL_BAR};
use crate::utils::{copy_range, piece_views, push_all, split, split_units};

verus! {

/// How the cells of a column are aligned.
#[derive(Clone, Copy, Debug, PartialEq, Eq, Structural)]
pub enum TableAlignment {
    Left,
    Center,
    Right,
}

/// The opening cell tag of an alignment.
pub open spec fn cell_tag(a: TableAlignment) -> Seq<u16> {
    match a {
        TableAlignment::Center => td_center(),
        TableAlignment::Left => td_left(),
        TableAlignment::Right => td_right(),
    }
}

impl TableAlignment {
    fn render(&self) -> (r: Vec<u16>)
        ensures
            r@ == cell_tag(*self),
    {
        match self {
            TableAlignment::Center => td_center_units(),
            TableAlignment::Left => td_left_units(),
            TableAlignment::Right => td_right_units(),
        }
    }
}

/// The alignment a delimiter cell sets: `:` at both ends centres, `:` at the
/// end alone aligns right, anything else aligns left.
pub open spec fn column_alignment(c: Seq<u16>) -> TableAlignment {
    if c.len() < 2 {
        TableAlignment::Left
    } else if c[0] == COLON {
        if c.last() == COLON {
            TableAlignment::Center
        } else {
            TableAlignment::Left
        }
    } else if c.last() == COLON {
        TableAlignment::Right
    } else {
        TableAlignment::Left
    }
}

fn parse_column_alignment(content: &Vec<u16>) -> (r: TableAlignment)
    ensures
        r == column_alignment(content@),
{
    let n = content.len();
    if n < 2 {
        TableAlignment::Left
    } else if content[0] == COLON {
        if content[n - 1] == COLON {
            TableAlignment::Center
        } else {
            TableAlignment::Left
        }
    } else if content[n - 1] == COLON {
        TableAlignment::Right
    } else {
        TableAlignment::Left
    }
}

/// The cells of a row: the pieces between its bars, without what stands
/// before the first bar and after the last.
pub open spec fn cells(row: Seq<u16>) -> Seq<Seq<u16>> {
    let p = split(row, VERTICAL_BAR);
    if p.len() >= 2 {
        p.subrange(1, p.len() - 1)
    } else {
        Seq::empty()
    }
}

fn row_to_cells(row: &Vec<u16>) -> (r: Vec<Vec<u16>>)
    ensures
        piece_views(r@) == cells(row@),
{
    let pieces = split_units(row, VERTICAL_BAR);
    let ghost p = piece_views(pieces@);
    let mut r: Vec<Vec<u16>> = Vec::new();
    if pieces.len() < 2 {
        proof {
            assert(piece_views(r@) =~= Seq::<Seq<u16>>::empty());
        }
        return r;
    }
    let mut k: usize = 1;
    proof {
        assert(piece_views(r@) =~= p.subrange(1, 1));
    }
    while k < pieces.len() - 1
        invariant
            p == piece_views(pieces@),
            pieces@.len() >= 2,
            1 <= k <= pieces@.len() - 1,
            piece_views(r@) == p.subrange(1, k as int),
        decreases pieces@.len() - k,
    {
        let c = copy_range(&pieces[k], 0, pieces[k].len());
        proof {
            assert(pieces@[k as int]@.subrange(0, pieces@[k as int]@.len() as int) =~= pieces@[k as int]@);
        }
        let ghost r0 = piece_views(r@);
        r.push(c);
        proof {
            assert(piece_views(r@) =~= r0.push(p[k as int]));
            assert(p.subrange(1, k + 1) =~= p.subrange(1, k as int).push(p[k as int]));
        }
        k += 1;
    }
    r
}

/// A line that can be a table row: a paragraph or delimiter line of more
/// than two units with a bar at each end.
pub open spec fn table_row(l: LineView) -> bool {
    (l.line_type == LineType::Paragraph || l.line_type == LineType::TableDelimiter) && l.content.len()
        > 2 && l.content[0] == VERTICAL_BAR && l.content.last() == VERTICAL_BAR
}

fn is_valid_table_row(line: &Line) -> (r: bool)
    ensures
        r == table_row(line@),
{
    let n = line.content.len();
    (line.line_type == LineType::Paragraph || line.line_type == LineType::TableDelimiter) && n > 2
        && line.content[0] == VERTICAL_BAR && line.content[n - 1] == VERTICAL_BAR
}

/// The header cells of the first `n` cells.
pub open spec fn head_cells(cs: Seq<Seq<u16>>, n: nat) -> Seq<u16>
    decreases n,
{
    if n == 0 || n > cs.len() {
        Seq::empty()
    } else {
        head_cells(cs, (n - 1) as nat) + th_open() + cs[n - 1] + th_close()
    }
}

/// The body cells of the first `n` cells, each with its column's alignment.
pub open spec fn body_cells(cs: Seq<Seq<u16>>, aligns: Seq<TableAlignment>, n: nat) -> Seq<u16>
    decreases n,
{
    if n == 0 || n > cs.len() || n > aligns.len() {
        Seq::empty()
    } else {
        body_cells(cs, aligns, (n - 1) as nat) + cell_tag(aligns[n - 1]) + cs[n - 1] + td_close()
    }
}

/// A body row: its cells up to the number of columns.
pub open spec fn body_row(cs: Seq<Seq<u16>>, aligns: Seq<TableAlignment>) -> Seq<u16> {
    let n = if cs.len() < aligns.len() {
        cs.len()
    } else {
        aligns.len()
    };
    tr_open() + body_cells(cs, aligns, n) + tr_close()
}

/// The first `n` body rows.
pub open spec fn body_rows(rows: Seq<LineView>, aligns: Seq<TableAlignment>, n: nat) -> Seq<u16>
    decreases n,
{
    if n == 0 || n > rows.len() {
        Seq::empty()
    } else {
        body_rows(rows, aligns, (n - 1) as nat) + body_row(cells(rows[n - 1].content), aligns)
    }
}

/// The alignments that the cells of a delimiter row set.
pub open spec fn alignments(delimiter: Seq<u16>) -> Seq<TableAlignment> {
    cells(delimiter).map_values(|c: Seq<u16>| column_alignment(c))
}

/// The rendered table made of a header row, a delimiter row and body rows.
pub open spec fn table_of(ls: Seq<LineView>) -> LineView {
    let content = if ls.len() >= 2 {
        let head = cells(ls[0].content);
        let body = ls.subrange(2, ls.len() as int);
        table_open() + thead_open() + head_cells(head, head.len()) + thead_close() + tbody_open()
            + body_rows(body, alignments(ls[1].content), body.len()) + tbody_close() + table_close()
    } else {
        Seq::empty()
    };
    LineView { content, indent: 0, line_type: LineType::RenderedTable }
}

fn construct_table(lines: &Vec<Line>) -> (r: Line)
    requires
        lines@.len() >= 2,
    ensures
        r@ == table_of(views(lines@)),
{
    let ghost ls = views(lines@);
    let table_head = row_to_cells(&lines[0].content);
    let delimiter_cells = row_to_cells(&lines[1].content);
    let mut aligns: Vec<TableAlignment> = Vec::new();
    let mut k: usize = 0;
    let ghost dcs = piece_views(delimiter_cells@);
    while k < delimiter_cells.len()
        invariant
            dcs == piece_views(delimiter_cells@),
            k <= delimiter_cells@.len(),
            aligns@ == dcs.subrange(0, k as int).map_values(|c: Seq<u16>| column_alignment(c)),
        decreases delimiter_cells@.len() - k,
    {
        aligns.push(parse_column_alignment(&delimiter_cells[k]));
        proof {
            assert(aligns@ =~= dcs.subrange(0, k + 1).map_values(|c: Seq<u16>| column_alignment(c)));
        }
        k += 1;
    }
    proof {
        assert(dcs.subrange(0, dcs.len() as int) =~= dcs);
        assert(ls[1] == lines@[1]@);
        assert(ls[0] == lines@[0]@);
    }
    let mut result = table_open_units();
    push_all(&mut result, &thead_open_units());
    let ghost prefix = result@;
    let ghost head = piece_views(table_head@);
    let mut h: usize = 0;
    while h < table_head.len()
        invariant
            head == piece_views(table_head@),
            h <= table_head@.len(),
            result@ == prefix + head_cells(head, h as nat),
        decreases table_head@.len() - h,
    {
        push_all(&mut result, &th_open_units());
        push_all(&mut result, &table_head[h]);
        push_all(&mut result, &th_close_units());
        proof {
            assert(result@ =~= prefix + head_cells(head, (h + 1) as nat));
        }
        h += 1;
    }
    push_all(&mut result, &thead_close_units());
    push_all(&mut result, &tbody_open_units());
    let ghost prefix2 = result@;
    let ghost body = ls.subrange(2, ls.len() as int);
    let mut b: usize = 2;
    while b < lines.len()
        invariant
            ls == views(lines@),
            body == ls.subrange(2, ls.len() as int),
            aligns@ == alignments(ls[1].content),
            2 <= b <= lines@.len(),
            result@ == prefix2 + body_rows(body, aligns@, (b - 2) as nat),
        decreases lines@.len() - b,
    {
        let tr = row_to_cells(&lines[b].content);
        let ghost cs = piece_views(tr@);
        let ghost row_prefix = result@;
        push_all(&mut result, &tr_open_units());
        let ghost cells_prefix = result@;
        let mut ind: usize = 0;
        while ind < tr.len() && ind < aligns.len()
            invariant
                cs == piece_views(tr@),
                ind <= tr@.len(),
                ind <= aligns@.len(),
                result@ == cells_prefix + body_cells(cs, aligns@, ind as nat),
            decreases tr@.len() - ind,
        {
            push_all(&mut result, &aligns[ind].render());
            push_all(&mut result, &tr[ind]);
            push_all(&mut result, &td_close_units());
            proof {
                assert(result@ =~= cells_prefix + body_cells(cs, aligns@, (ind + 1) as nat));
            }
            ind += 1;
        }
        push_all(&mut result, &tr_close_units());
        proof {
            assert(body[b - 2] == lines@[b as int]@);
            assert(cs == cells(body[b - 2].content));
            assert(result@ =~= prefix2 + body_rows(body, aligns@, (b - 1) as nat));
        }
        b += 1;
    }
    push_all(&mut result, &tbody_close_units());
    push_all(&mut result, &table_close_units());
    proof {
        assert(result@ =~= table_of(ls).content);
    }
    Line { content: result, indent: 0, line_type: LineType::RenderedTable }
}

/// A line that cannot join a table, made a paragraph and decorated.
pub open spec fn demoted(l: LineView) -> LineView {
    inline_rendered(LineView { line_type: LineType::Paragraph, ..l })
}

/// The line that ends a table; a delimiter line there is demoted too.
pub open spec fn after_table(l: LineView) -> LineView {
    if l.line_type == LineType::TableDelimiter {
        demoted(l)
    } else {
        l
    }
}

/// A delimiter line at `i` starts a table: the line before it is a row with
/// as many cells.
pub open spec fn starts_table(ls: Seq<LineView>, i: int) -> bool {
    i > 0 && table_row(ls[i - 1]) && cells(ls[i].content).len() == cells(ls[i - 1].content).len()
}

/// Merging tables from line `i`; `cur` holds the rows of the open table.
pub open spec fn tables_from(
    ls: Seq<LineView>,
    i: int,
    inside: bool,
    cur: Seq<LineView>,
    acc: Seq<LineView>,
) -> Seq<LineView>
    decreases ls.len() - i,
{
    if i < 0 || i >= ls.len() {
        if inside {
            acc.push(table_of(cur))
        } else {
            acc
        }
    } else if inside {
        if table_row(ls[i]) {
            tables_from(ls, i + 1, true, cur.push(ls[i]), acc)
        } else {
            tables_from(ls, i + 1, false, Seq::empty(), acc.push(table_of(cur)).push(after_table(ls[i])))
        }
    } else if ls[i].line_type == LineType::TableDelimiter {
        if starts_table(ls, i) && acc.len() > 0 {
            tables_from(ls, i + 1, true, seq![acc.last(), ls[i]], acc.drop_last())
        } else {
            tables_from(ls, i + 1, false, cur, acc.push(demoted(ls[i])))
        }
    } else {
        tables_from(ls, i + 1, false, cur, acc.push(ls[i]))
    }
}

/// `ls` with its tables merged, and the delimiter lines that start none demoted.
pub open spec fn merged_tables(ls: Seq<LineView>) -> Seq<LineView> {
    tables_from(ls, 0, false, Seq::empty(), Seq::empty())
}

/// No line of `ls` is a code fence marker.
pub open spec fn no_code_fence(ls: Seq<Line>) -> bool {
    forall|k: int| 0 <= k < ls.len() ==> #[trigger] ls[k].line_type != LineType::CodeFence
}

fn demote(ln: &Line) -> (r: Line)
    ensures
        r@ == demoted(ln@),
        r.line_type == LineType::Paragraph,
{
    let mut d = ln.copy();
    d.line_type = LineType::Paragraph;
    render_inline(d)
}

/// Merges each table into one rendered line; a delimiter line that starts
/// no table becomes a decorated paragraph.
pub fn merge_table(lines: &Vec<Line>) -> (r: Vec<Line>)
    ensures
        views(r@) == merged_tables(views(lines@)),
        no_code_fence(lines@) ==> all_renderable(r@),
{
    let ghost ls = views(lines@);
    let mut r: Vec<Line> = Vec::new();
    let mut inside = false;
    let mut cur: Vec<Line> = Vec::new();
    let mut i: usize = 0;
    proof {
        assert(views(cur@) =~= Seq::<LineView>::empty());
        assert(views(r@) =~= Seq::<LineView>::empty());
    }
    while i < lines.len()
        invariant
            ls == views(lines@),
            i <= lines@.len(),
            inside ==> cur@.len() >= 2,
            i > 0 && !inside ==> r@.len() > 0,
            tables_from(ls, i as int, inside, views(cur@), views(r@)) == merged_tables(ls),
            no_code_fence(lines@) ==> all_renderable(r@),
        decreases lines@.len() - i,
    {
        let ghost cur0 = views(cur@);
        let ghost acc0 = views(r@);
        let ln = &lines[i];
        proof {
            assert(ls[i as int] == ln@);
        }
        if inside {
            if is_valid_table_row(ln) {
                cur.push(ln.copy());
                proof {
                    assert(views(cur@) =~= cur0.push(ls[i as int]));
                }
            } else {
                let t = construct_table(&cur);
                r.push(t);
                let next = if ln.line_type == LineType::TableDelimiter {
                    demote(ln)
                } else {
                    ln.copy()
                };
                let ghost nv = next@;
                r.push(next);
                cur = Vec::new();
                inside = false;
                proof {
                    assert(nv == after_table(ls[i as int]));
                    assert(views(r@) =~= acc0.push(table_of(cur0)).push(nv));
                    assert(views(cur@) =~= Seq::<LineView>::empty());
                }
            }
        } else if ln.line_type == LineType::TableDelimiter {
            let mut starts = false;
            if i > 0 && is_valid_table_row(&lines[i - 1]) {
                proof {
                    assert(ls[i - 1] == lines@[i - 1]@);
                }
                starts = row_to_cells(&ln.content).len() == row_to_cells(&lines[i - 1].content).len();
            }
            if starts {
                let prev = r.pop().unwrap();
                cur = Vec::new();
                cur.push(prev);
                cur.push(ln.copy());
                inside = true;
                proof {
                    assert(views(r@) =~= acc0.drop_last());
                    assert(views(cur@) =~= seq![acc0.last(), ls[i as int]]);
                }
            } else {
                let d = demote(ln);
                r.push(d);
                proof {
                    assert(views(r@) =~= acc0.push(demoted(ls[i as int])));
                }
            }
        } else {
            r.push(ln.copy());
            proof {
                assert(views(r@) =~= acc0.push(ls[i as int]));
            }
        }
        i += 1;
    }
    if inside {
        let ghost acc0 = views(r@);
        let t = construct_table(&cur);
        r.push(t);
        proof {
            assert(views(r@) =~= acc0.push(table_of(views(cur@))));
        }
    }
    r
}

/// A delimiter line whose cell count differs from the row before it starts
/// no table: it becomes a decorated paragraph, and the row stays as it was.
pub proof fn lemma_mismatched_delimiter_is_paragraph(row: LineView, delimiter: LineView)
    requires
        row.line_type != LineType::TableDelimiter,
        delimiter.line_type == LineType::TableDelimiter,
        cells(delimiter.content).len() != cells(row.content).len(),
    ensures
        merged_tables(seq![row, delimiter]) == seq![row, demoted(delimiter)],
{
    let ls = seq![row, delimiter];
    let e = Seq::<LineView>::empty();
    assert(!starts_table(ls, 1));
    assert(tables_from(ls, 2, false, e, e.push(row).push(demoted(delimiter))) == e.push(row).push(
        demoted(delimiter),
    ));
    assert(tables_from(ls, 1, false, e, e.push(row)) == e.push(row).push(demoted(delimiter)));
    assert(e.push(row).push(demoted(delimiter)) =~= seq![row, demoted(delimiter)]);
}

/// The line at `i` is a delimiter line that takes the line before it into a table.
pub open spec fn takes_previous(ls: Seq<LineView>, i: int) -> bool {
    0 <= i < ls.len() && ls[i].line_type == LineType::TableDelimiter && starts_table(ls, i)
}

/// What of `acc` no later step can take back: all of it, but for its last
/// line where the next line may start a table with it.
pub open spec fn settled(ls: Seq<LineView>, i: int, inside: bool, acc: Seq<LineView>) -> Seq<LineView> {
    if !inside && takes_previous(ls, i) && acc.len() > 0 {
        acc.drop_last()
    } else {
        acc
    }
}

proof fn lemma_tables_keep_settled(
    ls: Seq<LineView>,
    i: int,
    inside: bool,
    cur: Seq<LineView>,
    acc: Seq<LineView>,
)
    requires
        0 <= i,
    ensures
        ({
            let r = tables_from(ls, i, inside, cur, acc);
            let k = settled(ls, i, inside, acc);
            k.len() <= r.len() && r.subrange(0, k.len() as int) == k
        }),
    decreases ls.len() - i,
{
    let r = tables_from(ls, i, inside, cur, acc);
    let k = settled(ls, i, inside, acc);
    if i >= ls.len() {
        assert(r.subrange(0, k.len() as int) =~= k);
    } else if inside {
        if table_row(ls[i]) {
            lemma_tables_keep_settled(ls, i + 1, true, cur.push(ls[i]), acc);
        } else {
            let next = acc.push(table_of(cur)).push(after_table(ls[i]));
            lemma_tables_keep_settled(ls, i + 1, false, Seq::empty(), next);
            let k2 = settled(ls, i + 1, false, next);
            assert(k2.subrange(0, acc.len() as int) =~= acc);
            assert(r.subrange(0, k.len() as int) =~= k2.subrange(0, acc.len() as int));
        }
    } else if ls[i].line_type == LineType::TableDelimiter {
        if starts_table(ls, i) && acc.len() > 0 {
            lemma_tables_keep_settled(ls, i + 1, true, seq![acc.last(), ls[i]], acc.drop_last());
        } else {
            let next = acc.push(demoted(ls[i]));
            lemma_tables_keep_settled(ls, i + 1, false, cur, next);
            let k2 = settled(ls, i + 1, false, next);
            assert(k2.subrange(0, acc.len() as int) =~= acc);
            assert(r.subrange(0, k.len() as int) =~= k2.subrange(0, acc.len() as int));
        }
    } else {
        let next = acc.push(ls[i]);
        lemma_tables_keep_settled(ls, i + 1, false, cur, next);
        let k2 = settled(ls, i + 1, false, next);
        assert(k2.subrange(0, acc.len() as int) =~= acc);
        assert(r.subrange(0, k.len() as int) =~= k2.subrange(0, acc.len() as int));
    }
}

/// Outside a table, a delimiter line that does not take the line before it
/// into a table (there is none, it is no table row, or its cell count
/// differs) is emitted in its place as a decorated paragraph, and stays out
/// of every table unless the next line takes it as a header.
pub proof fn lemma_unmatched_delimiter_is_paragraph(
    ls: Seq<LineView>,
    i: int,
    cur: Seq<LineView>,
    acc: Seq<LineView>,
)
    requires
        0 <= i < ls.len(),
        ls[i].line_type == LineType::TableDelimiter,
        !starts_table(ls, i),
        !takes_previous(ls, i + 1),
    ensures
        ({
            let r = tables_from(ls, i, false, cur, acc);
            &&& acc.len() < r.len()
            &&& r.subrange(0, acc.len() as int) == acc
            &&& r[acc.len() as int] == demoted(ls[i])
            &&& r[acc.len() as int].line_type == LineType::Paragraph
        }),
{
    let next = acc.push(demoted(ls[i]));
    lemma_tables_keep_settled(ls, i + 1, false, cur, next);
    let r = tables_from(ls, i, false, cur, acc);
    assert(r.subrange(0, next.len() as int) == next);
    assert(r.subrange(0, acc.len() as int) =~= acc) by {
        assert(next.subrange(0, acc.len() as int) =~= acc);
    }
    assert(r[acc.len() as int] == r.subrange(0, next.len() as int)[acc.len() as int]);
}

} // verus!
