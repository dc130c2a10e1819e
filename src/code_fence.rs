//! Fenced code: the lines between two fence markers, kept as literal text.
use vstd::prelude::*;
use crate::escape::{backslashes_doubled, prevent_backslash_escape};
use crate::line::{Line, LineType, LineView, views};
use crate::link::parenthesis_end;
use crate::markup::{line_no_open, line_no_open_units, span_close, span_close_units};
use crate::numbers::{decimal, decimal_units, parse_i32, parsed_i32};
use crate::syntax_highlighter::{highlighted_lines, raw_of, SyntaxHighlighter};
use crate::inline::{inline_rendered, lemma_fenced_code_not_decorated};
use crate::table::no_code_fence;
use crate::tag::independent_tag_resolved;
use crate::text::{decoded_utf16, from_utf16_lossy};
use crate::units::{BACKTICK, COMMA, LEFT_PARENTHESIS, NEWLINE, SPACE};
use crate::units::RIGHT_PARENTHESIS;
use crate::utils::{
    after_leading, copy_range, drop_while, get_parenthesis_end_index, lemma_leading,
    lemma_partner_from_range,
    option_units, piece_views, push_all, split, split_units,
};

verus! {

/// The options of a fence: the language to highlight in, and the number of
/// the first line when lines are numbered.
pub struct CodeFenceOption {
    pub language: Option<Vec<u16>>,
    pub line_num: Option<i32>,
}

/// The mathematical value of fence options.
pub ghost struct FenceOptions {
    pub language: Option<Seq<u16>>,
    pub line_num: Option<i32>,
}

impl View for CodeFenceOption {
    type V = FenceOptions;

    open spec fn view(&self) -> FenceOptions {
        FenceOptions { language: option_units(self.language), line_num: self.line_num }
    }
}

/// `s` without its spaces.
pub open spec fn without_spaces(s: Seq<u16>) -> Seq<u16>
    decreases s.len(),
{
    if s.len() == 0 {
        s
    } else if s.last() == SPACE {
        without_spaces(s.drop_last())
    } else {
        without_spaces(s.drop_last()).push(s.last())
    }
}

/// Index of the first `c` in `s` at or after `i`.
pub open spec fn first_index_from(s: Seq<u16>, i: int, c: u16) -> Option<int>
    decreases s.len() - i,
{
    if i < 0 || i >= s.len() {
        None
    } else if s[i] == c {
        Some(i)
    } else {
        first_index_from(s, i + 1, c)
    }
}

/// The line number a parameter sets: an integer in the parentheses that its
/// first `(` opens.
pub open spec fn param_number(p: Seq<u16>) -> Option<i32> {
    match first_index_from(p, 0, LEFT_PARENTHESIS) {
        Some(k) => match parenthesis_end(p, k) {
            Some(e) => if k < e {
                parsed_i32(p.subrange(k + 1, e))
            } else {
                None
            },
            None => None,
        },
        None => None,
    }
}

/// The options from the parameters from `i` on: an empty parameter sets
/// nothing, one that sets a line number sets it, any other one names the
/// language; later ones win.
pub open spec fn options_from(ps: Seq<Seq<u16>>, i: int, o: FenceOptions) -> FenceOptions
    decreases ps.len() - i,
{
    if i < 0 || i >= ps.len() {
        o
    } else if ps[i].len() == 0 {
        options_from(ps, i + 1, o)
    } else {
        match param_number(ps[i]) {
            Some(n) => options_from(ps, i + 1, FenceOptions { line_num: Some(n), ..o }),
            None => options_from(ps, i + 1, FenceOptions { language: Some(ps[i]), ..o }),
        }
    }
}

/// The options of a fence marker line: what follows the backticks, without
/// spaces, cut at commas.
pub open spec fn fence_options(content: Seq<u16>) -> FenceOptions {
    options_from(
        split(without_spaces(after_leading(content, BACKTICK)), COMMA),
        0,
        FenceOptions { language: None, line_num: None },
    )
}

fn remove_spaces(s: &Vec<u16>) -> (r: Vec<u16>)
    ensures
        r@ == without_spaces(s@),
{
    let mut r: Vec<u16> = Vec::new();
    let mut i: usize = 0;
    while i < s.len()
        invariant
            i <= s@.len(),
            r@ == without_spaces(s@.subrange(0, i as int)),
        decreases s@.len() - i,
    {
        proof {
            assert(s@.subrange(0, i + 1).drop_last() =~= s@.subrange(0, i as int));
        }
        if s[i] != SPACE {
            r.push(s[i]);
        }
        i += 1;
    }
    proof {
        assert(s@.subrange(0, s@.len() as int) =~= s@);
    }
    r
}

fn line_number_of(p: &Vec<u16>) -> (r: Option<i32>)
    ensures
        r == param_number(p@),
{
    let mut k: usize = 0;
    while k < p.len() && p[k] != LEFT_PARENTHESIS
        invariant
            k <= p@.len(),
            first_index_from(p@, 0, LEFT_PARENTHESIS) == first_index_from(p@, k as int, LEFT_PARENTHESIS),
        decreases p@.len() - k,
    {
        k += 1;
    }
    if k == p.len() {
        return None;
    }
    match get_parenthesis_end_index(p, k) {
        None => None,
        Some(e) => {
            proof {
                lemma_partner_from_range(p@, k as int, 0, LEFT_PARENTHESIS, RIGHT_PARENTHESIS);
            }
            if k < e {
                let inner = copy_range(p, k + 1, e);
                parse_i32(inner.as_slice())
            } else {
                None
            }
        },
    }
}

fn parse_code_fence_option(content: &Vec<u16>) -> (r: CodeFenceOption)
    ensures
        r@ == fence_options(content@),
{
    let stripped = remove_spaces(&drop_while(content, BACKTICK));
    let params = split_units(&stripped, COMMA);
    let ghost ps = piece_views(params@);
    let mut language: Option<Vec<u16>> = None;
    let mut line_num: Option<i32> = None;
    let mut i: usize = 0;
    while i < params.len()
        invariant
            ps == piece_views(params@),
            ps == split(without_spaces(after_leading(content@, BACKTICK)), COMMA),
            i <= params@.len(),
            options_from(ps, i as int, FenceOptions { language: option_units(language), line_num })
                == fence_options(content@),
        decreases params@.len() - i,
    {
        if params[i].len() == 0 {
        } else {
            match line_number_of(&params[i]) {
            Some(n) => {
                line_num = Some(n);
            },
            None => {
                language = Some(copy_range(&params[i], 0, params[i].len()));
                proof {
                    assert(params@[i as int]@.subrange(0, params@[i as int]@.len() as int) =~= ps[i as int]);
                }
            },
            }
        }
        i += 1;
    }
    CodeFenceOption { language, line_num }
}

/// The line number tag for `n`.
pub open spec fn line_number_html(n: int) -> Seq<u16> {
    line_no_open() + decimal(n) + span_close()
}

/// The first `k` lines of a fence, each followed by a newline and, where a
/// starting number is set, preceded by its number.
pub open spec fn numbered_lines(ls: Seq<LineView>, num: Option<i32>, k: nat) -> Seq<u16>
    decreases k,
{
    if k == 0 || k > ls.len() {
        Seq::empty()
    } else {
        let prefix = match num {
            Some(n) => line_number_html(n + k - 1),
            None => Seq::empty(),
        };
        numbered_lines(ls, num, (k - 1) as nat) + prefix + raw_of(ls[k - 1]) + seq![NEWLINE]
    }
}

/// The text of a fence: its lines joined by newlines, each numbered when a
/// starting number is set; the last one only with `last_numbered`.
pub open spec fn fence_text(ls: Seq<LineView>, num: Option<i32>, last_numbered: bool) -> Seq<u16> {
    if ls.len() == 0 {
        Seq::empty()
    } else {
        let prefix = match num {
            Some(n) => if last_numbered {
                line_number_html(n + ls.len() - 1)
            } else {
                Seq::empty()
            },
            None => Seq::empty(),
        };
        numbered_lines(ls, num, (ls.len() - 1) as nat) + prefix + raw_of(ls.last())
    }
}

/// The fenced code line made of the lines `ls` of a fence with options `o`.
/// Every line is numbered when a number is set, but for the last piece of
/// highlighted output, which only closes the markup of the line before.
pub open spec fn fenced_of(ls: Seq<LineView>, o: FenceOptions) -> LineView {
    let highlighted = match o.language {
        Some(t) => highlighted_lines(ls, decoded_utf16(t)),
        None => None,
    };
    let content = if ls.len() == 0 {
        Seq::empty()
    } else {
        match highlighted {
            Some(h) => backslashes_doubled(fence_text(h, o.line_num, false)),
            None => backslashes_doubled(fence_text(ls, o.line_num, true)),
        }
    };
    LineView { content, indent: 0, line_type: LineType::FencedCode }
}

/// The number tag of the line `offset` places after the first, numbered `start`.
fn render_line_number(start: i32, offset: usize) -> (r: Vec<u16>)
    ensures
        r@ == line_number_html(start + offset),
{
    let mut r = line_no_open_units();
    push_all(&mut r, &decimal_units(start as i128 + offset as i128));
    push_all(&mut r, &span_close_units());
    r
}

fn construct_code_fence(
    lines: Vec<Line>,
    options: &CodeFenceOption,
    syntax_highlighter: &SyntaxHighlighter,
) -> (r: Line)
    ensures
        r@ == fenced_of(views(lines@), options@),
{
    if lines.len() == 0 {
        return Line { content: Vec::new(), indent: 0, line_type: LineType::FencedCode };
    }
    let highlighted = match &options.language {
        Some(s) => {
            let token = from_utf16_lossy(s);
            syntax_highlighter.highlight_lines(&lines, token.as_str())
        },
        None => None,
    };
    let last_numbered = highlighted.is_none();
    let body = match highlighted {
        Some(h) => h,
        None => lines,
    };
    let ghost bs = views(body@);
    let mut content: Vec<u16> = Vec::new();
    let mut ind: usize = 0;
    if body.len() > 0 {
        while ind < body.len() - 1
            invariant
                bs == views(body@),
                body@.len() > 0,
                ind < body@.len(),
                content@ == numbered_lines(bs, options.line_num, ind as nat),
            decreases body@.len() - ind,
        {
            let ghost c0 = content@;
            if let Some(n) = options.line_num {
                push_all(&mut content, &render_line_number(n, ind));
            }
            push_all(&mut content, &body[ind].into_raw());
            content.push(NEWLINE);
            proof {
                assert(bs[ind as int] == body@[ind as int]@);
                assert(content@ =~= numbered_lines(bs, options.line_num, (ind + 1) as nat));
            }
            ind += 1;
        }
        if last_numbered {
            if let Some(n) = options.line_num {
                push_all(&mut content, &render_line_number(n, ind));
            }
        }
        push_all(&mut content, &body[ind].into_raw());
        proof {
            assert(bs[ind as int] == body@[ind as int]@);
            assert(content@ =~= fence_text(bs, options.line_num, last_numbered));
        }
    }
    Line { content: prevent_backslash_escape(&content), indent: 0, line_type: LineType::FencedCode }
}

/// No options.
pub open spec fn no_options() -> FenceOptions {
    FenceOptions { language: None, line_num: None }
}

/// Merging fences from line `i`; `cur` holds the lines of the open fence and
/// `o` its options. A fence left open at the end is closed with what it holds.
pub open spec fn fences_from(
    ls: Seq<LineView>,
    i: int,
    inside: bool,
    cur: Seq<LineView>,
    o: FenceOptions,
    acc: Seq<LineView>,
) -> Seq<LineView>
    decreases ls.len() - i,
{
    if i < 0 || i >= ls.len() {
        if cur.len() > 0 {
            acc.push(fenced_of(cur, o))
        } else {
            acc
        }
    } else if ls[i].line_type == LineType::CodeFence {
        if inside {
            fences_from(ls, i + 1, false, Seq::empty(), no_options(), acc.push(fenced_of(cur, o)))
        } else {
            fences_from(ls, i + 1, true, cur, fence_options(ls[i].content), acc)
        }
    } else if inside {
        fences_from(ls, i + 1, inside, cur.push(ls[i]), o, acc)
    } else {
        fences_from(ls, i + 1, inside, cur, o, acc.push(ls[i]))
    }
}

/// `ls` with each fenced region merged into one fenced code line.
pub open spec fn merged_fences(ls: Seq<LineView>) -> Seq<LineView> {
    fences_from(ls, 0, false, Seq::empty(), no_options(), Seq::empty())
}

/// Merges each fenced region into one fenced code line, highlighting it when
/// its options name a language.
pub fn merge_code_fence(lines: &Vec<Line>, syntax_highlighter: &SyntaxHighlighter) -> (r: Vec<Line>)
    ensures
        views(r@) == merged_fences(views(lines@)),
        no_code_fence(r@),
{
    let ghost ls = views(lines@);
    let mut cur: Vec<Line> = Vec::new();
    let mut inside = false;
    let mut r: Vec<Line> = Vec::new();
    let mut options = CodeFenceOption { language: None, line_num: None };
    let mut i: usize = 0;
    proof {
        assert(views(cur@) =~= Seq::<LineView>::empty());
        assert(views(r@) =~= Seq::<LineView>::empty());
    }
    while i < lines.len()
        invariant
            ls == views(lines@),
            i <= lines@.len(),
            fences_from(ls, i as int, inside, views(cur@), options@, views(r@)) == merged_fences(ls),
            no_code_fence(r@),
        decreases lines@.len() - i,
    {
        let ghost cur0 = views(cur@);
        let ghost acc0 = views(r@);
        let ln = &lines[i];
        proof {
            assert(ls[i as int] == ln@);
        }
        if ln.line_type == LineType::CodeFence {
            if inside {
                let ghost o0 = options@;
                let taken = cur;
                cur = Vec::new();
                let f = construct_code_fence(taken, &options, syntax_highlighter);
                r.push(f);
                options = CodeFenceOption { language: None, line_num: None };
                proof {
                    assert(views(r@) =~= acc0.push(fenced_of(cur0, o0)));
                    assert(views(cur@) =~= Seq::<LineView>::empty());
                }
            } else {
                options = parse_code_fence_option(&ln.content);
            }
            inside = !inside;
        } else if inside {
            cur.push(ln.copy());
            proof {
                assert(views(cur@) =~= cur0.push(ls[i as int]));
            }
        } else {
            r.push(ln.copy());
            proof {
                assert(views(r@) =~= acc0.push(ls[i as int]));
            }
        }
        i += 1;
    }
    let ghost cur0 = views(cur@);
    let ghost acc0 = views(r@);
    if cur.len() > 0 {
        let f = construct_code_fence(cur, &options, syntax_highlighter);
        r.push(f);
    }
    proof {
        if cur0.len() > 0 {
            assert(views(r@) =~= acc0.push(fenced_of(cur0, options@)));
        }
    }
    r
}

proof fn lemma_fence_body(ls: Seq<LineView>, i: int, k: int, cur: Seq<LineView>, o: FenceOptions)
    requires
        0 <= i <= k < ls.len(),
        forall|j: int| i <= j < k ==> #[trigger] ls[j].line_type != LineType::CodeFence,
    ensures
        fences_from(ls, i, true, cur, o, Seq::empty()) == fences_from(
            ls,
            k,
            true,
            cur + ls.subrange(i, k),
            o,
            Seq::empty(),
        ),
    decreases k - i,
{
    if i < k {
        lemma_fence_body(ls, i + 1, k, cur.push(ls[i]), o);
        assert(cur.push(ls[i]) + ls.subrange(i + 1, k) =~= cur + ls.subrange(i, k));
    } else {
        assert(cur + ls.subrange(i, k) =~= cur);
    }
}

/// Fenced code is kept literally: a marker line of backticks alone, the
/// lines up to the next marker, and that marker become one fenced code line
/// whose text is those lines as written, joined by newlines, with their
/// backslashes doubled so that the final unescape pass gives them back.
/// The whole-line tag pass and the inline cascade leave that line as it is.
pub proof fn lemma_fence_kept_literally(open: LineView, body: Seq<LineView>, close: LineView)
    requires
        open.line_type == LineType::CodeFence,
        open.content.len() >= 3,
        forall|j: int| 0 <= j < open.content.len() ==> #[trigger] open.content[j] == BACKTICK,
        close.line_type == LineType::CodeFence,
        body.len() > 0,
        forall|j: int| 0 <= j < body.len() ==> #[trigger] body[j].line_type != LineType::CodeFence,
    ensures
        ({
            let fenced = LineView {
                content: backslashes_doubled(fence_text(body, None, true)),
                indent: 0,
                line_type: LineType::FencedCode,
            };
            &&& merged_fences(seq![open] + body + seq![close]) == seq![fenced]
            &&& independent_tag_resolved(fenced) == fenced
            &&& inline_rendered(fenced) == fenced
        }),
{
    let ls = seq![open] + body + seq![close];
    let n = body.len() as int;
    let c = open.content;
    lemma_leading(c, BACKTICK, c.len() as int);
    let rest = after_leading(c, BACKTICK);
    assert(rest =~= Seq::<u16>::empty());
    assert(without_spaces(rest) =~= Seq::<u16>::empty());
    let e = Seq::<u16>::empty();
    assert(split(e, COMMA) == seq![e]);
    let ps = seq![e];
    assert(options_from(ps, 1, no_options()) == no_options());
    assert(fence_options(c) == no_options());
    assert(ls[0] == open);
    assert forall|j: int| 1 <= j < n + 1 implies #[trigger] ls[j].line_type != LineType::CodeFence by {
        assert(ls[j] == body[j - 1]);
    }
    let none = Seq::<LineView>::empty();
    assert(fences_from(ls, 0, false, none, no_options(), none) == fences_from(
        ls,
        1,
        true,
        none,
        no_options(),
        none,
    ));
    lemma_fence_body(ls, 1, n + 1, none, no_options());
    assert(none + ls.subrange(1, n + 1) =~= body);
    assert(ls[n + 1] == close);
    let fenced = fenced_of(body, no_options());
    assert(fences_from(ls, n + 2, false, none, no_options(), none.push(fenced)) == none.push(fenced));
    assert(none.push(fenced) =~= seq![fenced]);
    lemma_fenced_code_not_decorated(fenced);
}

} // verus!
