//! Blockquotes: nesting by the count of leading `>`, with lazy continuation.
use vstd::prelude::*;
use crate::line::{Line, LineType, LineView, views};
use crate::markup::{blockquote_close, blockquote_close_units, blockquote_open, blockquote_open_units};
use crate::paragraph::{all_renderable, separator, separator_units};
use crate::units::{GREATER_THAN, SPACE};
use crate::utils::{after_leading, copy_range, drop_while, leading, push_all, take_while};

verus! {

/// The number of leading `>` of a line.
pub fn count_blockquote(line: &Line) -> (r: usize)
    ensures
        r == leading(line@.content, GREATER_THAN),
{
    take_while(&line.content, GREATER_THAN).len()
}

/// The nesting level of a blockquote line; zero for any other line.
pub open spec fn quote_level(l: LineView) -> nat {
    match l.line_type {
        LineType::Blockquote(n) => n as nat,
        _ => 0,
    }
}

impl Line {
    fn get_blockquote_level(&self) -> (r: usize)
        ensures
            r == quote_level(self@),
    {
        match self.line_type {
            LineType::Blockquote(n) => n,
            _ => 0,
        }
    }
}

/// `s` repeated `n` times.
pub open spec fn repeated(s: Seq<u16>, n: nat) -> Seq<u16>
    decreases n,
{
    if n == 0 {
        Seq::empty()
    } else {
        repeated(s, (n - 1) as nat) + s
    }
}

fn repeat_units(s: &Vec<u16>, n: usize) -> (r: Vec<u16>)
    ensures
        r@ == repeated(s@, n as nat),
{
    let mut r: Vec<u16> = Vec::new();
    let mut i: usize = 0;
    while i < n
        invariant
            i <= n,
            r@ == repeated(s@, i as nat),
        decreases n - i,
    {
        push_all(&mut r, s);
        i += 1;
    }
    r
}

/// The text of a quoted line: without its `>` run and one space after it.
pub open spec fn quoted_text(c: Seq<u16>) -> Seq<u16> {
    let rest = after_leading(c, GREATER_THAN);
    if rest.len() > 0 && rest[0] == SPACE {
        rest.drop_first()
    } else {
        rest
    }
}

fn strip_quote_marker(c: &Vec<u16>) -> (r: Vec<u16>)
    ensures
        r@ == quoted_text(c@),
{
    let rest = drop_while(c, GREATER_THAN);
    if rest.len() > 0 && rest[0] == SPACE {
        let r = copy_range(&rest, 1, rest.len());
        proof {
            assert(r@ =~= rest@.drop_first());
        }
        r
    } else {
        rest
    }
}

/// The body of a merged blockquote from line `i`, at nesting `level`.
pub open spec fn quote_from(ps: Seq<LineView>, i: int, level: nat, acc: Seq<u16>) -> Seq<u16>
    decreases ps.len() - i,
{
    if i < 0 || i >= ps.len() {
        acc + repeated(blockquote_close(), level)
    } else {
        let n = quote_level(ps[i]);
        let opened = if n > level {
            repeated(blockquote_open(), (n - level) as nat)
        } else {
            Seq::empty()
        };
        let next = if n > level {
            n
        } else {
            level
        };
        quote_from(
            ps,
            i + 1,
            next,
            acc + opened + quoted_text(ps[i].content) + separator(ps[i].content),
        )
    }
}

/// One merged blockquote line made of `ps`.
pub open spec fn blockquote_of(ps: Seq<LineView>) -> LineView {
    LineView {
        content: quote_from(ps, 0, 0, Seq::empty()),
        indent: 0,
        line_type: LineType::Blockquote(0),
    }
}

fn construct_blockquote(lines: &Vec<Line>) -> (r: Line)
    ensures
        r@ == blockquote_of(views(lines@)),
{
    let ghost ps = views(lines@);
    let mut level: usize = 0;
    let mut content: Vec<u16> = Vec::new();
    let mut i: usize = 0;
    while i < lines.len()
        invariant
            ps == views(lines@),
            i <= lines@.len(),
            quote_from(ps, i as int, level as nat, content@) == quote_from(ps, 0, 0, Seq::empty()),
        decreases lines@.len() - i,
    {
        let ln = &lines[i];
        let n = ln.get_blockquote_level();
        let ghost acc0 = content@;
        let ghost level0 = level;
        if n > level {
            push_all(&mut content, &repeat_units(&blockquote_open_units(), n - level));
            level = n;
        }
        let ghost acc1 = content@;
        push_all(&mut content, &strip_quote_marker(&ln.content));
        push_all(&mut content, &separator_units(&ln.content));
        proof {
            assert(ps[i as int] == ln@);
            if n > level0 {
                assert(content@ =~= acc0 + repeated(blockquote_open(), (n - level0) as nat)
                    + quoted_text(ln.content@) + separator(ln.content@));
            } else {
                assert(content@ =~= acc0 + Seq::<u16>::empty() + quoted_text(ln.content@)
                    + separator(ln.content@));
            }
        }
        i += 1;
    }
    push_all(&mut content, &repeat_units(&blockquote_close_units(), level));
    Line { content, indent: 0, line_type: LineType::Blockquote(0) }
}

/// `acc` with the pending blockquote `cur` closed, if there is one.
pub open spec fn flush_blockquote(cur: Seq<LineView>, acc: Seq<LineView>) -> Seq<LineView> {
    if cur.len() > 0 {
        acc.push(blockquote_of(cur))
    } else {
        acc
    }
}

/// Merging blockquotes from line `i`; a paragraph line right after a
/// blockquote line continues it.
pub open spec fn blockquotes_from(
    ls: Seq<LineView>,
    i: int,
    cur: Seq<LineView>,
    acc: Seq<LineView>,
) -> Seq<LineView>
    decreases ls.len() - i,
{
    if i < 0 || i >= ls.len() {
        flush_blockquote(cur, acc)
    } else if ls[i].line_type is Blockquote || (ls[i].line_type == LineType::Paragraph && cur.len()
        > 0) {
        blockquotes_from(ls, i + 1, cur.push(ls[i]), acc)
    } else if ls[i].line_type == LineType::Paragraph {
        blockquotes_from(ls, i + 1, cur, acc.push(ls[i]))
    } else {
        blockquotes_from(ls, i + 1, Seq::empty(), flush_blockquote(cur, acc).push(ls[i]))
    }
}

/// `ls` with each run of blockquote lines, and their lazy continuations, merged.
pub open spec fn merged_blockquotes(ls: Seq<LineView>) -> Seq<LineView> {
    blockquotes_from(ls, 0, Seq::empty(), Seq::empty())
}

/// Merges each run of blockquote lines, with their lazy continuations, into one line.
pub fn merge_blockquote(lines: &Vec<Line>) -> (r: Vec<Line>)
    ensures
        views(r@) == merged_blockquotes(views(lines@)),
        all_renderable(lines@) ==> all_renderable(r@),
{
    let ghost ls = views(lines@);
    let mut cur: Vec<Line> = Vec::new();
    let mut r: Vec<Line> = Vec::new();
    let mut i: usize = 0;
    proof {
        assert(views(cur@) =~= Seq::<LineView>::empty());
        assert(views(r@) =~= Seq::<LineView>::empty());
    }
    while i < lines.len()
        invariant
            ls == views(lines@),
            i <= lines@.len(),
            blockquotes_from(ls, i as int, views(cur@), views(r@)) == merged_blockquotes(ls),
            all_renderable(lines@) ==> all_renderable(r@),
        decreases lines@.len() - i,
    {
        let ghost cur0 = views(cur@);
        let ghost acc0 = views(r@);
        let t = lines[i].line_type;
        let is_quote = match t {
            LineType::Blockquote(_) => true,
            _ => false,
        };
        if is_quote || (t == LineType::Paragraph && cur.len() > 0) {
            cur.push(lines[i].copy());
            proof {
                assert(views(cur@) =~= cur0.push(ls[i as int]));
            }
        } else if t == LineType::Paragraph {
            r.push(lines[i].copy());
            proof {
                assert(views(r@) =~= acc0.push(ls[i as int]));
            }
        } else {
            if cur.len() > 0 {
                let q = construct_blockquote(&cur);
                r.push(q);
                cur = Vec::new();
            }
            proof {
                assert(views(r@) =~= flush_blockquote(cur0, acc0));
            }
            let ghost acc1 = views(r@);
            r.push(lines[i].copy());
            proof {
                assert(views(r@) =~= acc1.push(ls[i as int]));
                assert(views(cur@) =~= Seq::<LineView>::empty());
            }
        }
        i += 1;
    }
    let ghost cur0 = views(cur@);
    let ghost acc0 = views(r@);
    if cur.len() > 0 {
        let q = construct_blockquote(&cur);
        r.push(q);
    }
    proof {
        assert(views(r@) =~= flush_blockquote(cur0, acc0));
    }
    r
}

} // verus!
