//! Small operations on code-unit buffers that the passes share.
use vstd::prelude::*;
use crate::units::{BIG_A, BIG_Z, LEFT_PARENTHESIS, LEFT_SQUARE_BRACKET, RIGHT_PARENTHESIS, RIGHT_SQUARE_BRACKET};

verus! {

/// Number of leading units of `s` that equal `c`.
pub open spec fn leading(s: Seq<u16>, c: u16) -> nat
    decreases s.len(),
{
    if s.len() > 0 && s[0] == c {
        1 + leading(s.drop_first(), c)
    } else {
        0
    }
}

/// `s` without its leading run of `c`.
pub open spec fn after_leading(s: Seq<u16>, c: u16) -> Seq<u16> {
    s.subrange(leading(s, c) as int, s.len() as int)
}

/// The leading run of `c` in `s`.
pub open spec fn leading_run(s: Seq<u16>, c: u16) -> Seq<u16> {
    s.subrange(0, leading(s, c) as int)
}

/// A run that stops at `i` is the leading run.
pub proof fn lemma_leading(s: Seq<u16>, c: u16, i: int)
    requires
        0 <= i <= s.len(),
        forall|j: int| 0 <= j < i ==> s[j] == c,
        i == s.len() || s[i] != c,
    ensures
        leading(s, c) == i,
    decreases i,
{
    if i > 0 {
        lemma_leading(s.drop_first(), c, i - 1);
    }
}

/// The leading run never exceeds the buffer, and every unit in it is `c`.
pub proof fn lemma_leading_bounds(s: Seq<u16>, c: u16)
    ensures
        leading(s, c) <= s.len(),
        forall|j: int| 0 <= j < leading(s, c) ==> s[j] == c,
        leading(s, c) == s.len() || s[leading(s, c) as int] != c,
    decreases s.len(),
{
    if s.len() > 0 && s[0] == c {
        lemma_leading_bounds(s.drop_first(), c);
        assert forall|j: int| 0 <= j < leading(s, c) implies s[j] == c by {
            if j > 0 {
                assert(s[j] == s.drop_first()[j - 1]);
            }
        }
    }
}

/// Counts the leading units of `v` equal to `c`.
fn count_leading(v: &Vec<u16>, c: u16) -> (r: usize)
    ensures
        r == leading(v@, c),
        r <= v@.len(),
{
    let mut index: usize = 0;
    while index < v.len() && v[index] == c
        invariant
            index <= v@.len(),
            forall|j: int| 0 <= j < index ==> v@[j] == c,
        decreases v@.len() - index,
    {
        index += 1;
    }
    proof {
        lemma_leading(v@, c, index as int);
    }
    index
}

/// Copies `v[lo..hi]` into a new buffer.
pub fn copy_range(v: &Vec<u16>, lo: usize, hi: usize) -> (r: Vec<u16>)
    requires
        lo <= hi <= v@.len(),
    ensures
        r@ == v@.subrange(lo as int, hi as int),
{
    let mut r: Vec<u16> = Vec::new();
    let mut i: usize = lo;
    while i < hi
        invariant
            lo <= i <= hi <= v@.len(),
            r@ == v@.subrange(lo as int, i as int),
        decreases hi - i,
    {
        r.push(v[i]);
        i += 1;
        proof {
            assert(r@ =~= v@.subrange(lo as int, i as int));
        }
    }
    r
}

/// Appends every unit of `src` to `dst`.
pub fn push_all(dst: &mut Vec<u16>, src: &Vec<u16>)
    ensures
        final(dst)@ == old(dst)@ + src@,
{
    let mut i: usize = 0;
    while i < src.len()
        invariant
            i <= src@.len(),
            dst@ == old(dst)@ + src@.subrange(0, i as int),
        decreases src@.len() - i,
    {
        dst.push(src[i]);
        i += 1;
        proof {
            assert(dst@ =~= old(dst)@ + src@.subrange(0, i as int));
        }
    }
    proof {
        assert(src@.subrange(0, src@.len() as int) =~= src@);
    }
}

/// `v` without its leading run of `c`.
pub fn drop_while(v: &Vec<u16>, c: u16) -> (r: Vec<u16>)
    ensures
        r@ == after_leading(v@, c),
        r@.len() == v@.len() - leading(v@, c),
{
    let n = count_leading(v, c);
    copy_range(v, n, v.len())
}

/// The leading run of `c` in `v`.
pub fn take_while(v: &Vec<u16>, c: u16) -> (r: Vec<u16>)
    ensures
        r@ == leading_run(v@, c),
        r@.len() == leading(v@, c),
{
    let n = count_leading(v, c);
    copy_range(v, 0, n)
}

/// The leading run of `c` in `v`, and what follows it.
pub fn take_and_drop_while(v: &Vec<u16>, c: u16) -> (r: (Vec<u16>, Vec<u16>))
    ensures
        r.0@ == leading_run(v@, c),
        r.0@.len() == leading(v@, c),
        r.1@ == after_leading(v@, c),
        r.1@.len() == v@.len() - leading(v@, c),
        r.0@ + r.1@ == v@,
{
    let n = count_leading(v, c);
    let taken = copy_range(v, 0, n);
    let rest = copy_range(v, n, v.len());
    proof {
        assert(taken@ + rest@ =~= v@);
    }
    (taken, rest)
}

/// Scanning `v` from `i` with `depth` groups open, the index of the `close`
/// unit that brings the depth from one down to zero.
pub open spec fn partner_from(v: Seq<u16>, i: int, depth: int, open: u16, close: u16) -> Option<int>
    decreases v.len() - i,
{
    if i < 0 || i >= v.len() {
        None
    } else if v[i] == open {
        partner_from(v, i + 1, depth + 1, open, close)
    } else if v[i] == close {
        if depth == 1 {
            Some(i)
        } else {
            partner_from(v, i + 1, depth - 1, open, close)
        }
    } else {
        partner_from(v, i + 1, depth, open, close)
    }
}

/// Index of the `close` unit that balances the group starting at `begin`.
pub open spec fn partner(v: Seq<u16>, begin: int, open: u16, close: u16) -> Option<int> {
    partner_from(v, begin, 0, open, close)
}

/// What `partner_from` returns is a `close` unit at or after the start.
pub proof fn lemma_partner_from_range(v: Seq<u16>, i: int, depth: int, open: u16, close: u16)
    requires
        0 <= i,
    ensures
        partner_from(v, i, depth, open, close) matches Some(k) ==> i <= k < v.len() && v[k] == close,
    decreases v.len() - i,
{
    if i < v.len() {
        lemma_partner_from_range(v, i + 1, depth + 1, open, close);
        lemma_partner_from_range(v, i + 1, depth - 1, open, close);
        lemma_partner_from_range(v, i + 1, depth, open, close);
    }
}

fn get_partner_index(v: &Vec<u16>, begin_index: usize, s: u16, p: u16) -> (r: Option<usize>)
    ensures
        r matches Some(k) ==> Some(k as int) == partner(v@, begin_index as int, s, p),
        r is None ==> partner(v@, begin_index as int, s, p) is None,
{
    if begin_index >= v.len() {
        return None;
    }
    let mut opened: usize = 0;
    let mut closed: usize = 0;
    let mut index: usize = begin_index;
    while index < v.len()
        invariant
            begin_index <= index <= v@.len(),
            opened + closed <= index - begin_index,
            partner(v@, begin_index as int, s, p) == partner_from(
                v@,
                index as int,
                opened - closed,
                s,
                p,
            ),
        decreases v@.len() - index,
    {
        if v[index] == s {
            opened += 1;
        } else if v[index] == p {
            if opened == closed + 1 {
                return Some(index);
            }
            closed += 1;
        }
        index += 1;
    }
    None
}

/// Index of the `]` that balances the `[` at `index`.
pub fn get_bracket_end_index(v: &Vec<u16>, index: usize) -> (r: Option<usize>)
    ensures
        r matches Some(k) ==> Some(k as int) == partner(v@, index as int, LEFT_SQUARE_BRACKET, RIGHT_SQUARE_BRACKET),
        r is None ==> partner(v@, index as int, LEFT_SQUARE_BRACKET, RIGHT_SQUARE_BRACKET) is None,
{
    get_partner_index(v, index, LEFT_SQUARE_BRACKET, RIGHT_SQUARE_BRACKET)
}

/// Index of the `)` that balances the `(` at `index`.
pub fn get_parenthesis_end_index(v: &Vec<u16>, index: usize) -> (r: Option<usize>)
    ensures
        r matches Some(k) ==> Some(k as int) == partner(v@, index as int, LEFT_PARENTHESIS, RIGHT_PARENTHESIS),
        r is None ==> partner(v@, index as int, LEFT_PARENTHESIS, RIGHT_PARENTHESIS) is None,
{
    get_partner_index(v, index, LEFT_PARENTHESIS, RIGHT_PARENTHESIS)
}

/// Digits, Latin letters and the Hangul syllables block.
pub open spec fn is_word_unit(c: u16) -> bool {
    (47 < c && c < 58) || (64 < c && c < 91) || (96 < c && c < 123) || (44031 < c && c < 55203)
}

/// The units of `s` that `is_word_unit` keeps, in order.
pub open spec fn word_units(s: Seq<u16>) -> Seq<u16>
    decreases s.len(),
{
    if s.len() == 0 {
        s
    } else if is_word_unit(s.last()) {
        word_units(s.drop_last()).push(s.last())
    } else {
        word_units(s.drop_last())
    }
}

/// Keeps only digits, Latin letters and Hangul syllables.
pub fn remove_special_characters(line: &Vec<u16>) -> (r: Vec<u16>)
    ensures
        r@ == word_units(line@),
{
    let mut r: Vec<u16> = Vec::new();
    let mut i: usize = 0;
    while i < line.len()
        invariant
            i <= line@.len(),
            r@ == word_units(line@.subrange(0, i as int)),
        decreases line@.len() - i,
    {
        let c = line[i];
        if (47 < c && c < 58) || (64 < c && c < 91) || (96 < c && c < 123) || (44031 < c && c
            < 55203) {
            r.push(c);
        }
        proof {
            assert(line@.subrange(0, i + 1).drop_last() =~= line@.subrange(0, i as int));
        }
        i += 1;
    }
    proof {
        assert(line@.subrange(0, line@.len() as int) =~= line@);
    }
    r
}

/// ASCII upper-case letters become lower-case; other units stay.
pub open spec fn lower(c: u16) -> u16 {
    if BIG_A <= c && c <= BIG_Z {
        (c + 32) as u16
    } else {
        c
    }
}

/// Lower-cases an ASCII letter.
pub fn lowercase(c: u16) -> (r: u16)
    ensures
        r == lower(c),
{
    if BIG_A <= c && c <= BIG_Z {
        c + 32
    } else {
        c
    }
}

/// The views of a sequence of buffers.
pub open spec fn piece_views(v: Seq<Vec<u16>>) -> Seq<Seq<u16>> {
    v.map_values(|x: Vec<u16>| x@)
}

/// `Some` of the view of a buffer, or `None`.
pub open spec fn option_units(o: Option<Vec<u16>>) -> Option<Seq<u16>> {
    match o {
        Some(v) => Some(v@),
        None => None,
    }
}

/// `s` cut at every `d`: the pieces between separators, in order.
pub open spec fn split(s: Seq<u16>, d: u16) -> Seq<Seq<u16>>
    decreases s.len(),
{
    if s.len() == 0 {
        seq![Seq::<u16>::empty()]
    } else {
        let prev = split(s.drop_last(), d);
        if s.last() == d {
            prev.push(Seq::<u16>::empty())
        } else {
            prev.update(prev.len() - 1, prev.last().push(s.last()))
        }
    }
}

/// Cuts `v` at every `d`.
pub fn split_units(v: &Vec<u16>, d: u16) -> (r: Vec<Vec<u16>>)
    ensures
        r@.map_values(|x: Vec<u16>| x@) == split(v@, d),
{
    let mut done: Vec<Vec<u16>> = Vec::new();
    let mut cur: Vec<u16> = Vec::new();
    let mut i: usize = 0;
    while i < v.len()
        invariant
            i <= v@.len(),
            done@.map_values(|x: Vec<u16>| x@).push(cur@) == split(v@.subrange(0, i as int), d),
        decreases v@.len() - i,
    {
        let ghost before = done@.map_values(|x: Vec<u16>| x@).push(cur@);
        proof {
            assert(v@.subrange(0, i + 1).drop_last() =~= v@.subrange(0, i as int));
        }
        if v[i] == d {
            let piece = cur;
            done.push(piece);
            cur = Vec::new();
            proof {
                assert(done@.map_values(|x: Vec<u16>| x@).push(cur@) =~= before.push(
                    Seq::<u16>::empty(),
                ));
            }
        } else {
            cur.push(v[i]);
            proof {
                assert(done@.map_values(|x: Vec<u16>| x@).push(cur@) =~= before.update(
                    before.len() - 1,
                    before.last().push(v@[i as int]),
                ));
            }
        }
        i += 1;
    }
    done.push(cur);
    proof {
        assert(v@.subrange(0, v@.len() as int) =~= v@);
        assert(done@.map_values(|x: Vec<u16>| x@) =~= split(v@, d));
    }
    done
}

/// Text without `d` is one piece.
pub proof fn lemma_split_single(s: Seq<u16>, d: u16)
    requires
        forall|j: int| 0 <= j < s.len() ==> #[trigger] s[j] != d,
    ensures
        split(s, d) == seq![s],
    decreases s.len(),
{
    if s.len() > 0 {
        let t = s.drop_last();
        assert forall|j: int| 0 <= j < t.len() implies #[trigger] t[j] != d by {
            assert(t[j] == s[j]);
        }
        lemma_split_single(t, d);
        assert(s.last() == s[s.len() - 1]);
        assert(t.push(s.last()) =~= s);
        assert(seq![t].update(0, t.push(s.last())) =~= seq![s]);
    } else {
        assert(s =~= Seq::<u16>::empty());
    }
}

} // verus!
