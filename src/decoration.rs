//! Code spans and the emphasis chain of the inline cascade.
use vstd::prelude::*;
use crate::escape::{backslashes_doubled, prevent_backslash_escape};
use crate::link::{lemma_with_links_no_bracket, linked, render_link};
use crate::markup::{
    code_close, code_close_units, code_short_open, code_short_open_units, del_close,
    del_close_units, del_open, del_open_units, em_close, em_close_units, em_open, em_open_units,
    strong_close, strong_close_units, strong_open, strong_open_units, sub_close, sub_close_units,
    sub_open, sub_open_units, sup_close, sup_close_units, sup_open, sup_open_units, u_close,
    u_close_units, u_open, u_open_units,
};
use crate::tag::{lemma_tagged_no_bracket, render_tag, tagged};
use crate::units::{ASTERISK, BACKTICK, CARET, LEFT_SQUARE_BRACKET, SPACE, TILDE, UNDERBAR};
use crate::utils::{copy_range, push_all};

verus! {

/// `s[a..b]`, or nothing where the bounds are out of order.
pub open spec fn piece(s: Seq<u16>, a: int, b: int) -> Seq<u16> {
    if 0 <= a <= b <= s.len() {
        s.subrange(a, b)
    } else {
        Seq::empty()
    }
}

fn copy_piece(s: &Vec<u16>, a: usize, b: usize) -> (r: Vec<u16>)
    ensures
        r@ == piece(s@, a as int, b as int),
{
    if a <= b && b <= s.len() {
        copy_range(s, a, b)
    } else {
        Vec::new()
    }
}

/// Scans for backticks from `i`: text between a pair becomes a code span, the
/// rest goes on to links and emphasis; an unpaired backtick stays as text.
pub open spec fn code_spans_from(s: Seq<u16>, i: int, inside: bool, last: int, acc: Seq<u16>) -> Seq<u16>
    decreases s.len() - i,
{
    if i < 0 || i >= s.len() {
        let l = if inside && last >= 1 {
            last - 1
        } else {
            last
        };
        acc + linked(piece(s, l, s.len() as int))
    } else if s[i] == BACKTICK {
        let part = if inside {
            code_short_open() + backslashes_doubled(piece(s, last, i)) + code_close()
        } else {
            linked(piece(s, last, i))
        };
        code_spans_from(s, i + 1, !inside, i + 1, acc + part)
    } else {
        code_spans_from(s, i + 1, inside, last, acc)
    }
}

/// The whole inline cascade on `s`.
pub open spec fn code_spanned(s: Seq<u16>) -> Seq<u16> {
    code_spans_from(s, 0, false, 0, Seq::empty())
}

/// Renders code spans, and passes the text around them on to links.
pub fn render_code_spans(content: &Vec<u16>) -> (r: Vec<u16>)
    ensures
        r@ == code_spanned(content@),
{
    let n = content.len();
    let mut r: Vec<u16> = Vec::new();
    let mut inside = false;
    let mut last: usize = 0;
    let mut i: usize = 0;
    while i < n
        invariant
            n == content@.len(),
            i <= n,
            last <= i,
            code_spans_from(content@, i as int, inside, last as int, r@) == code_spanned(content@),
        decreases n - i,
    {
        if content[i] == BACKTICK {
            let part = copy_piece(content, last, i);
            let ghost acc0 = r@;
            if inside {
                push_all(&mut r, &code_short_open_units());
                push_all(&mut r, &prevent_backslash_escape(&part));
                push_all(&mut r, &code_close_units());
                proof {
                    assert(r@ =~= acc0 + (code_short_open() + backslashes_doubled(part@)
                        + code_close()));
                }
            } else {
                push_all(&mut r, &render_link(&part));
            }
            last = i + 1;
            inside = !inside;
        }
        i += 1;
    }
    if inside && last >= 1 {
        last = last - 1;
    }
    let rest = copy_piece(content, last, n);
    push_all(&mut r, &render_link(&rest));
    r
}

/// The stages of the emphasis chain, each handing its inner text to the next
/// lower one; below superscript come the custom tags.
pub const ITALIC: u8 = 5;
pub const BOLD: u8 = 4;
pub const DEL: u8 = 3;
pub const UNDERLINE: u8 = 2;
pub const SUBSCRIPT: u8 = 1;
pub const SUPERSCRIPT: u8 = 0;

/// A lone `c`: not next to another `c`.
pub open spec fn single_delimiter(s: Seq<u16>, i: int, c: u16) -> bool {
    s[i] == c && (i == 0 || s[i - 1] != c) && (i == s.len() - 1 || s[i + 1] != c)
}

/// Two `c` in a row starting at `i`.
pub open spec fn double_delimiter(s: Seq<u16>, i: int, c: u16) -> bool {
    s[i] == c && i + 1 < s.len() && s[i + 1] == c
}

/// The previous unit exists and is not a space.
pub open spec fn after_text(s: Seq<u16>, i: int) -> bool {
    i > 0 && s[i - 1] != SPACE
}

/// The unit `d` after `i` exists and is not a space.
pub open spec fn before_text(s: Seq<u16>, i: int, d: int) -> bool {
    i + d < s.len() && s[i + d] != SPACE
}

/// The delimiter at `i` closes the open span of stage `k`.
pub open spec fn closes(k: nat, s: Seq<u16>, i: int, inside: bool) -> bool {
    if k == ITALIC {
        single_delimiter(s, i, ASTERISK) && inside && after_text(s, i)
    } else if k == BOLD {
        double_delimiter(s, i, ASTERISK) && inside && after_text(s, i)
    } else if k == DEL {
        double_delimiter(s, i, TILDE) && inside && after_text(s, i)
    } else if k == UNDERLINE {
        inside && s[i] == UNDERBAR && i + 1 < s.len() && s[i + 1] == TILDE && after_text(s, i)
    } else if k == SUBSCRIPT {
        single_delimiter(s, i, TILDE) && inside && after_text(s, i) && s[i - 1] != UNDERBAR
    } else {
        single_delimiter(s, i, CARET) && inside && after_text(s, i)
    }
}

/// The delimiter at `i` toggles stage `k` without closing a span: it opens
/// one, or drops an unmatched opener whose text ends in a space.
pub open spec fn opens(k: nat, s: Seq<u16>, i: int, inside: bool) -> bool {
    if k == ITALIC {
        single_delimiter(s, i, ASTERISK) && before_text(s, i, 1)
    } else if k == BOLD {
        double_delimiter(s, i, ASTERISK) && before_text(s, i, 2)
    } else if k == DEL {
        double_delimiter(s, i, TILDE) && before_text(s, i, 2)
    } else if k == UNDERLINE {
        !inside && s[i] == TILDE && i + 2 < s.len() && s[i + 1] == UNDERBAR && s[i + 2] != SPACE
    } else if k == SUBSCRIPT {
        single_delimiter(s, i, TILDE) && before_text(s, i, 1) && s[i + 1] != UNDERBAR
    } else {
        single_delimiter(s, i, CARET) && before_text(s, i, 1)
    }
}

/// Units that a delimiter of stage `k` takes.
pub open spec fn width(k: nat) -> int {
    if k == BOLD || k == DEL || k == UNDERLINE {
        2
    } else {
        1
    }
}

/// Opening tag of stage `k`.
pub open spec fn open_tag(k: nat) -> Seq<u16> {
    if k == ITALIC {
        em_open()
    } else if k == BOLD {
        strong_open()
    } else if k == DEL {
        del_open()
    } else if k == UNDERLINE {
        u_open()
    } else if k == SUBSCRIPT {
        sub_open()
    } else {
        sup_open()
    }
}

/// Closing tag of stage `k`.
pub open spec fn close_tag(k: nat) -> Seq<u16> {
    if k == ITALIC {
        em_close()
    } else if k == BOLD {
        strong_close()
    } else if k == DEL {
        del_close()
    } else if k == UNDERLINE {
        u_close()
    } else if k == SUBSCRIPT {
        sub_close()
    } else {
        sup_close()
    }
}

/// Stage `k` of the emphasis chain on `s` from `i`, with `last` the start of
/// the text not yet emitted; subscript and superscript end at a space.
pub open spec fn emphasis_from(
    k: nat,
    s: Seq<u16>,
    i: int,
    inside: bool,
    last: int,
    acc: Seq<u16>,
) -> Seq<u16>
    decreases k, s.len() - i,
{
    if i < 0 || i >= s.len() {
        let l = if inside {
            last - width(k)
        } else {
            last
        };
        let p = piece(s, l, s.len() as int);
        acc + if k == 0 {
            tagged(p)
        } else {
            emphasis_from((k - 1) as nat, p, 0, false, 0, Seq::empty())
        }
    } else if closes(k, s, i, inside) || opens(k, s, i, inside) {
        let p = piece(s, last, i);
        let inner = if k == 0 {
            tagged(p)
        } else {
            emphasis_from((k - 1) as nat, p, 0, false, 0, Seq::empty())
        };
        let part = if closes(k, s, i, inside) {
            open_tag(k) + inner + close_tag(k)
        } else {
            inner
        };
        emphasis_from(k, s, i + 1, !inside, i + width(k), acc + part)
    } else if k <= SUBSCRIPT && inside && s[i] == SPACE {
        emphasis_from(k, s, i + 1, false, last - 1, acc)
    } else {
        emphasis_from(k, s, i + 1, inside, last, acc)
    }
}

/// Stage `k` of the emphasis chain, and every stage below it, on `s`.
pub open spec fn emphasized(k: nat, s: Seq<u16>) -> Seq<u16> {
    emphasis_from(k, s, 0, false, 0, Seq::empty())
}

fn closes_at(k: u8, s: &Vec<u16>, i: usize, inside: bool) -> (r: bool)
    requires
        i < s@.len(),
    ensures
        r == closes(k as nat, s@, i as int, inside),
{
    let n = s.len();
    let after = i > 0 && s[i - 1] != SPACE;
    if k == ITALIC {
        single_at(s, i, ASTERISK) && inside && after
    } else if k == BOLD {
        s[i] == ASTERISK && n - i > 1 && s[i + 1] == ASTERISK && inside && after
    } else if k == DEL {
        s[i] == TILDE && n - i > 1 && s[i + 1] == TILDE && inside && after
    } else if k == UNDERLINE {
        inside && s[i] == UNDERBAR && n - i > 1 && s[i + 1] == TILDE && after
    } else if k == SUBSCRIPT {
        single_at(s, i, TILDE) && inside && after && s[i - 1] != UNDERBAR
    } else {
        single_at(s, i, CARET) && inside && after
    }
}

fn opens_at(k: u8, s: &Vec<u16>, i: usize, inside: bool) -> (r: bool)
    requires
        i < s@.len(),
    ensures
        r == opens(k as nat, s@, i as int, inside),
{
    let n = s.len();
    if k == ITALIC {
        single_at(s, i, ASTERISK) && n - i > 1 && s[i + 1] != SPACE
    } else if k == BOLD {
        s[i] == ASTERISK && n - i > 2 && s[i + 1] == ASTERISK && s[i + 2] != SPACE
    } else if k == DEL {
        s[i] == TILDE && n - i > 2 && s[i + 1] == TILDE && s[i + 2] != SPACE
    } else if k == UNDERLINE {
        !inside && s[i] == TILDE && n - i > 2 && s[i + 1] == UNDERBAR && s[i + 2] != SPACE
    } else if k == SUBSCRIPT {
        single_at(s, i, TILDE) && n - i > 1 && s[i + 1] != SPACE && s[i + 1] != UNDERBAR
    } else {
        single_at(s, i, CARET) && n - i > 1 && s[i + 1] != SPACE
    }
}

fn single_at(s: &Vec<u16>, i: usize, c: u16) -> (r: bool)
    requires
        i < s@.len(),
    ensures
        r == single_delimiter(s@, i as int, c),
{
    s[i] == c && (i == 0 || s[i - 1] != c) && (i == s.len() - 1 || s[i + 1] != c)
}

fn open_tag_units(k: u8) -> (r: Vec<u16>)
    ensures
        r@ == open_tag(k as nat),
{
    if k == ITALIC {
        em_open_units()
    } else if k == BOLD {
        strong_open_units()
    } else if k == DEL {
        del_open_units()
    } else if k == UNDERLINE {
        u_open_units()
    } else if k == SUBSCRIPT {
        sub_open_units()
    } else {
        sup_open_units()
    }
}

fn close_tag_units(k: u8) -> (r: Vec<u16>)
    ensures
        r@ == close_tag(k as nat),
{
    if k == ITALIC {
        em_close_units()
    } else if k == BOLD {
        strong_close_units()
    } else if k == DEL {
        del_close_units()
    } else if k == UNDERLINE {
        u_close_units()
    } else if k == SUBSCRIPT {
        sub_close_units()
    } else {
        sup_close_units()
    }
}

fn render_below(k: u8, content: &Vec<u16>) -> (r: Vec<u16>)
    ensures
        r@ == (if k == 0 {
            tagged(content@)
        } else {
            emphasized((k - 1) as nat, content@)
        }),
    decreases k, 0nat,
{
    if k == 0 {
        render_tag(content)
    } else {
        render_emphasis(k - 1, content)
    }
}

/// Runs stage `k` of the emphasis chain and the stages below it.
fn render_emphasis(k: u8, content: &Vec<u16>) -> (r: Vec<u16>)
    ensures
        r@ == emphasized(k as nat, content@),
    decreases k, 1nat,
{
    let n = content.len();
    let w: usize = if k == BOLD || k == DEL || k == UNDERLINE {
        2
    } else {
        1
    };
    let mut r: Vec<u16> = Vec::new();
    let mut inside = false;
    let mut last: usize = 0;
    let mut i: usize = 0;
    while i < n
        invariant
            n == content@.len(),
            w == width(k as nat),
            i <= n,
            last <= n,
            inside ==> last >= w,
            emphasis_from(k as nat, content@, i as int, inside, last as int, r@) == emphasized(
                k as nat,
                content@,
            ),
        decreases n - i,
    {
        let c = closes_at(k, content, i, inside);
        if c || opens_at(k, content, i, inside) {
            let p = copy_piece(content, last, i);
            let inner = render_below(k, &p);
            let ghost acc0 = r@;
            if c {
                push_all(&mut r, &open_tag_units(k));
                push_all(&mut r, &inner);
                push_all(&mut r, &close_tag_units(k));
                proof {
                    assert(r@ =~= acc0 + (open_tag(k as nat) + inner@ + close_tag(k as nat)));
                }
            } else {
                push_all(&mut r, &inner);
            }
            last = i + w;
            inside = !inside;
        } else if k <= SUBSCRIPT && inside && content[i] == SPACE {
            last = last - 1;
            inside = false;
        }
        i += 1;
    }
    if inside {
        last = last - w;
    }
    let p = copy_piece(content, last, n);
    let inner = render_below(k, &p);
    push_all(&mut r, &inner);
    r
}

/// Renders italic and, inside and around it, the lower emphasis stages and tags.
pub fn render_italic(content: &Vec<u16>) -> (r: Vec<u16>)
    ensures
        r@ == emphasized(ITALIC as nat, content@),
{
    render_emphasis(ITALIC, content)
}

/// A unit that no stage of the inline cascade reacts to.
pub open spec fn inert_unit(c: u16) -> bool {
    c != BACKTICK && c != LEFT_SQUARE_BRACKET && c != ASTERISK && c != TILDE && c != CARET && c
        != UNDERBAR
}

/// Text made of inert units only.
pub open spec fn inert(s: Seq<u16>) -> bool {
    forall|j: int| 0 <= j < s.len() ==> inert_unit(#[trigger] s[j])
}

proof fn lemma_emphasis_from_inert(k: nat, s: Seq<u16>, i: int)
    requires
        0 <= i <= s.len(),
        inert(s),
    ensures
        emphasis_from(k, s, i, false, 0, Seq::empty()) == emphasis_from(
            k,
            s,
            s.len() as int,
            false,
            0,
            Seq::empty(),
        ),
    decreases s.len() - i,
{
    if i < s.len() {
        assert(inert_unit(s[i]));
        lemma_emphasis_from_inert(k, s, i + 1);
    }
}

/// Inert text comes out of every stage of the emphasis chain unchanged.
pub proof fn lemma_emphasized_inert(k: nat, s: Seq<u16>)
    requires
        inert(s),
    ensures
        emphasized(k, s) == s,
    decreases k,
{
    lemma_emphasis_from_inert(k, s, 0);
    let p = piece(s, 0, s.len() as int);
    assert(p =~= s);
    if k == 0 {
        assert forall|j: int| 0 <= j < s.len() implies s[j] != LEFT_SQUARE_BRACKET by {
            assert(inert_unit(s[j]));
        }
        lemma_tagged_no_bracket(s);
    } else {
        lemma_emphasized_inert((k - 1) as nat, s);
    }
    assert(Seq::<u16>::empty() + s =~= s);
}

proof fn lemma_code_spans_from_inert(s: Seq<u16>, i: int)
    requires
        0 <= i <= s.len(),
        inert(s),
    ensures
        code_spans_from(s, i, false, 0, Seq::empty()) == code_spans_from(
            s,
            s.len() as int,
            false,
            0,
            Seq::empty(),
        ),
    decreases s.len() - i,
{
    if i < s.len() {
        assert(inert_unit(s[i]));
        lemma_code_spans_from_inert(s, i + 1);
    }
}

/// Inert text comes out of the whole inline cascade unchanged.
pub proof fn lemma_code_spanned_inert(s: Seq<u16>)
    requires
        inert(s),
    ensures
        code_spanned(s) == s,
{
    lemma_code_spans_from_inert(s, 0);
    assert(piece(s, 0, s.len() as int) =~= s);
    assert forall|j: int| 0 <= j < s.len() implies s[j] != LEFT_SQUARE_BRACKET by {
        assert(inert_unit(s[j]));
    }
    lemma_with_links_no_bracket(s);
    lemma_emphasized_inert(ITALIC as nat, s);
    assert(Seq::<u16>::empty() + s =~= s);
}

} // verus!
