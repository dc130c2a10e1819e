//! The entity codec and the backslash-escape protocol.
use vstd::prelude::*;
use crate::units::{
    AMPERSAND, BACKSLASH, DOUBLE_QUOTE, LESS_THAN, SEMICOLON, SINGLE_QUOTE, SMALL_A, SMALL_L,
    SMALL_M, SMALL_O, SMALL_P, SMALL_Q, SMALL_S, SMALL_T, SMALL_U,
};
use crate::utils::push_all;

verus! {

/// The entity that stands for `c`, or `c` itself when it needs none.
pub open spec fn escape_unit(c: u16) -> Seq<u16> {
    if c == AMPERSAND {
        seq![AMPERSAND, SMALL_A, SMALL_M, SMALL_P, SEMICOLON]
    } else if c == LESS_THAN {
        seq![AMPERSAND, SMALL_L, SMALL_T, SEMICOLON]
    } else if c == DOUBLE_QUOTE {
        seq![AMPERSAND, SMALL_Q, SMALL_U, SMALL_O, SMALL_T, SEMICOLON]
    } else if c == SINGLE_QUOTE {
        seq![AMPERSAND, SMALL_A, SMALL_P, SMALL_O, SMALL_S, SEMICOLON]
    } else {
        seq![c]
    }
}

/// `s` with `&`, `<`, `"` and `'` replaced by their entities; `>` is kept.
pub open spec fn escaped(s: Seq<u16>) -> Seq<u16>
    decreases s.len(),
{
    if s.len() == 0 {
        s
    } else {
        escape_unit(s[0]) + escaped(s.drop_first())
    }
}

fn escape_unit_units(c: u16) -> (r: Vec<u16>)
    ensures
        r@ == escape_unit(c),
{
    if c == AMPERSAND {
        vec![AMPERSAND, SMALL_A, SMALL_M, SMALL_P, SEMICOLON]
    } else if c == LESS_THAN {
        vec![AMPERSAND, SMALL_L, SMALL_T, SEMICOLON]
    } else if c == DOUBLE_QUOTE {
        vec![AMPERSAND, SMALL_Q, SMALL_U, SMALL_O, SMALL_T, SEMICOLON]
    } else if c == SINGLE_QUOTE {
        vec![AMPERSAND, SMALL_A, SMALL_P, SMALL_O, SMALL_S, SEMICOLON]
    } else {
        vec![c]
    }
}

/// Replaces `&`, `<`, `"` and `'` by their entities.
pub fn escape_htmls(content: &Vec<u16>) -> (r: Vec<u16>)
    ensures
        r@ == escaped(content@),
{
    let mut r: Vec<u16> = Vec::new();
    let mut i: usize = 0;
    proof {
        assert(content@.subrange(0, content@.len() as int) =~= content@);
        assert(r@ + escaped(content@) =~= escaped(content@));
    }
    while i < content.len()
        invariant
            i <= content@.len(),
            r@ + escaped(content@.subrange(i as int, content@.len() as int)) == escaped(content@),
        decreases content@.len() - i,
    {
        let ghost rest = content@.subrange(i as int, content@.len() as int);
        let ghost before = r@;
        let unit = escape_unit_units(content[i]);
        push_all(&mut r, &unit);
        proof {
            assert(rest.drop_first() =~= content@.subrange(i + 1, content@.len() as int));
            assert(r@ + escaped(rest.drop_first()) =~= before + escaped(rest));
        }
        i += 1;
    }
    proof {
        assert(content@.subrange(content@.len() as int, content@.len() as int) =~= Seq::<u16>::empty());
        assert(r@ + Seq::<u16>::empty() =~= r@);
    }
    r
}

/// `e` stands in `s` from index `i` on.
pub open spec fn occurs_at(s: Seq<u16>, i: int, e: Seq<u16>) -> bool {
    0 <= i && i + e.len() <= s.len() && s.subrange(i, i + e.len()) == e
}

/// The entity that starts at `i` in `s`, if one does: the unit it stands for
/// and the index of its last unit.
pub open spec fn entity_at(s: Seq<u16>, i: int) -> Option<(u16, int)> {
    if occurs_at(s, i, escape_unit(AMPERSAND)) {
        Some((AMPERSAND, i + 4))
    } else if occurs_at(s, i, escape_unit(LESS_THAN)) {
        Some((LESS_THAN, i + 3))
    } else if occurs_at(s, i, escape_unit(DOUBLE_QUOTE)) {
        Some((DOUBLE_QUOTE, i + 5))
    } else if occurs_at(s, i, escape_unit(SINGLE_QUOTE)) {
        Some((SINGLE_QUOTE, i + 5))
    } else {
        None
    }
}

fn occurs_in(content: &Vec<u16>, index: usize, e: &Vec<u16>) -> (r: bool)
    ensures
        r == occurs_at(content@, index as int, e@),
{
    let n = content.len();
    if index > n || n - index < e.len() {
        return false;
    }
    let mut k: usize = 0;
    while k < e.len()
        invariant
            n == content@.len(),
            index + e@.len() <= n,
            k <= e@.len(),
            forall|m: int| 0 <= m < k ==> content@[index + m] == e@[m],
        decreases e@.len() - k,
    {
        if content[index + k] != e[k] {
            proof {
                assert(content@.subrange(index as int, index + e@.len())[k as int] != e@[k as int]);
            }
            return false;
        }
        k += 1;
    }
    proof {
        assert(content@.subrange(index as int, index + e@.len()) =~= e@);
    }
    true
}

/// Detects an entity starting at `index`.
pub fn is_escaped(content: &Vec<u16>, index: usize) -> (r: Option<(u16, usize)>)
    requires
        index < content@.len(),
    ensures
        r matches Some((c, j)) ==> entity_at(content@, index as int) == Some((c, j as int)),
        r is None ==> entity_at(content@, index as int) is None,
{
    let n = content.len();
    if occurs_in(content, index, &escape_unit_units(AMPERSAND)) {
        return Some((AMPERSAND, index + 4));
    }
    if occurs_in(content, index, &escape_unit_units(LESS_THAN)) {
        return Some((LESS_THAN, index + 3));
    }
    if occurs_in(content, index, &escape_unit_units(DOUBLE_QUOTE)) {
        return Some((DOUBLE_QUOTE, index + 5));
    }
    if occurs_in(content, index, &escape_unit_units(SINGLE_QUOTE)) {
        return Some((SINGLE_QUOTE, index + 5));
    }
    None
}

/// Decodes the entities of `s` from `i` on; with `keep_lt`, `&lt;` stays as it is.
pub open spec fn unescaped_from(s: Seq<u16>, i: int, keep_lt: bool) -> Seq<u16>
    decreases s.len() - i,
{
    if i < 0 || i >= s.len() {
        Seq::empty()
    } else {
        match entity_at(s, i) {
            Some((c, j)) => if keep_lt && c == LESS_THAN {
                seq![s[i]] + unescaped_from(s, i + 1, keep_lt)
            } else if j > i {
                seq![c] + unescaped_from(s, j + 1, keep_lt)
            } else {
                Seq::empty()
            },
            None => seq![s[i]] + unescaped_from(s, i + 1, keep_lt),
        }
    }
}

/// `s` with its four entities decoded.
pub open spec fn unescaped(s: Seq<u16>) -> Seq<u16> {
    unescaped_from(s, 0, false)
}

/// `s` with `&amp;`, `&quot;` and `&apos;` decoded and `&lt;` kept.
pub open spec fn unescaped_safely(s: Seq<u16>) -> Seq<u16> {
    unescaped_from(s, 0, true)
}

fn undo_escapes(content: &Vec<u16>, keep_lt: bool) -> (r: Vec<u16>)
    ensures
        r@ == unescaped_from(content@, 0, keep_lt),
{
    let mut r: Vec<u16> = Vec::new();
    let mut index: usize = 0;
    while index < content.len()
        invariant
            index <= content@.len(),
            r@ + unescaped_from(content@, index as int, keep_lt) == unescaped_from(
                content@,
                0,
                keep_lt,
            ),
        decreases content@.len() - index,
    {
        let ghost before = r@;
        let ghost i0 = index as int;
        match is_escaped(content, index) {
            None => {
                r.push(content[index]);
                index += 1;
            },
            Some((c, j)) => {
                if keep_lt && c == LESS_THAN {
                    r.push(content[index]);
                    index += 1;
                } else {
                    r.push(c);
                    index = j + 1;
                }
            },
        }
        proof {
            let rest = unescaped_from(content@, index as int, keep_lt);
            assert(r@ + rest =~= before + (seq![r@.last()] + rest));
        }
    }
    proof {
        assert(r@ + Seq::<u16>::empty() =~= r@);
    }
    r
}

/// Decodes `&amp;`, `&lt;`, `&quot;` and `&apos;`.
pub fn undo_html_escapes(content: &Vec<u16>) -> (r: Vec<u16>)
    ensures
        r@ == unescaped(content@),
{
    undo_escapes(content, false)
}

/// Decodes `&amp;`, `&quot;` and `&apos;`, and keeps `&lt;` so that no raw `<` appears.
pub fn undo_html_escapes_safely(content: &Vec<u16>) -> (r: Vec<u16>)
    ensures
        r@ == unescaped_safely(content@),
{
    undo_escapes(content, true)
}

/// Resolves author escapes: a backslash is dropped and the unit after it kept
/// as it is; a backslash at the very end is dropped.
pub open spec fn unbackslashed(s: Seq<u16>) -> Seq<u16>
    decreases s.len(),
{
    if s.len() == 0 {
        s
    } else if s[0] == BACKSLASH {
        if s.len() >= 2 {
            seq![s[1]] + unbackslashed(s.subrange(2, s.len() as int))
        } else {
            Seq::empty()
        }
    } else {
        seq![s[0]] + unbackslashed(s.drop_first())
    }
}

/// Replaces each backslash and the unit after it by that unit.
pub fn escape_backslashes(content: &Vec<u16>) -> (r: Vec<u16>)
    ensures
        r@ == unbackslashed(content@),
{
    let mut r: Vec<u16> = Vec::new();
    let mut i: usize = 0;
    let n = content.len();
    proof {
        assert(content@.subrange(0, n as int) =~= content@);
        assert(r@ + unbackslashed(content@) =~= unbackslashed(content@));
    }
    while i < n
        invariant
            n == content@.len(),
            i <= n,
            r@ + unbackslashed(content@.subrange(i as int, n as int)) == unbackslashed(content@),
        decreases n - i,
    {
        let ghost before = r@;
        let ghost rest = content@.subrange(i as int, n as int);
        if content[i] == BACKSLASH {
            if n - i >= 2 {
                r.push(content[i + 1]);
                proof {
                    assert(rest.subrange(2, rest.len() as int) =~= content@.subrange(i + 2, n as int));
                }
                i += 2;
            } else {
                i = n;
            }
        } else {
            r.push(content[i]);
            proof {
                assert(rest.drop_first() =~= content@.subrange(i + 1, n as int));
            }
            i += 1;
        }
        proof {
            let tail = unbackslashed(content@.subrange(i as int, n as int));
            assert(r@ + tail =~= before + unbackslashed(rest));
        }
    }
    proof {
        assert(r@ + unbackslashed(content@.subrange(n as int, n as int)) =~= r@);
    }
    r
}

/// `s` with every backslash doubled.
pub open spec fn backslashes_doubled(s: Seq<u16>) -> Seq<u16>
    decreases s.len(),
{
    if s.len() == 0 {
        s
    } else if s[0] == BACKSLASH {
        seq![BACKSLASH, BACKSLASH] + backslashes_doubled(s.drop_first())
    } else {
        seq![s[0]] + backslashes_doubled(s.drop_first())
    }
}

/// Doubles every backslash, so that `escape_backslashes` gives the text back.
pub fn prevent_backslash_escape(content: &Vec<u16>) -> (r: Vec<u16>)
    ensures
        r@ == backslashes_doubled(content@),
{
    let mut r: Vec<u16> = Vec::new();
    let mut i: usize = 0;
    let n = content.len();
    proof {
        assert(content@.subrange(0, n as int) =~= content@);
        assert(r@ + backslashes_doubled(content@) =~= backslashes_doubled(content@));
    }
    while i < n
        invariant
            n == content@.len(),
            i <= n,
            r@ + backslashes_doubled(content@.subrange(i as int, n as int)) == backslashes_doubled(
                content@,
            ),
        decreases n - i,
    {
        let ghost before = r@;
        let ghost rest = content@.subrange(i as int, n as int);
        if content[i] == BACKSLASH {
            r.push(BACKSLASH);
            r.push(BACKSLASH);
        } else {
            r.push(content[i]);
        }
        proof {
            assert(rest.drop_first() =~= content@.subrange(i + 1, n as int));
            let tail = backslashes_doubled(rest.drop_first());
            assert(r@ + tail =~= before + backslashes_doubled(rest));
        }
        i += 1;
    }
    proof {
        assert(r@ + backslashes_doubled(content@.subrange(n as int, n as int)) =~= r@);
    }
    r
}

/// A backslash escape resolves one layer: `\X` gives `X` for every unit `X`,
/// so `\\` gives a single backslash.
pub proof fn lemma_backslash_escape_one_layer(x: u16)
    ensures
        unbackslashed(seq![BACKSLASH, x]) == seq![x],
{
    let s = seq![BACKSLASH, x];
    assert(s.subrange(2, 2) =~= Seq::<u16>::empty());
    assert(unbackslashed(s.subrange(2, 2)) =~= Seq::<u16>::empty());
    assert(s[0] == BACKSLASH && s[1] == x);
    assert(seq![x] + Seq::<u16>::empty() =~= seq![x]);
}

/// Text whose backslashes were doubled comes out of the final unescape pass unchanged.
pub proof fn lemma_doubled_backslashes_survive(s: Seq<u16>)
    ensures
        unbackslashed(backslashes_doubled(s)) == s,
    decreases s.len(),
{
    if s.len() > 0 {
        lemma_doubled_backslashes_survive(s.drop_first());
        let d = backslashes_doubled(s);
        let t = backslashes_doubled(s.drop_first());
        if s[0] == BACKSLASH {
            assert(d.subrange(2, d.len() as int) =~= t);
        } else {
            assert(d.drop_first() =~= t);
        }
        assert(seq![s[0]] + s.drop_first() =~= s);
    }
}

/// An entity ends after it starts and inside the text.
proof fn lemma_entity_bounds(s: Seq<u16>, i: int)
    requires
        0 <= i < s.len(),
    ensures
        entity_at(s, i) matches Some((c, j)) ==> i < j < s.len(),
{
}

proof fn lemma_occurs_shift(p: Seq<u16>, t: Seq<u16>, i: int, e: Seq<u16>)
    requires
        0 <= i,
    ensures
        occurs_at(p + t, p.len() + i, e) == occurs_at(t, i, e),
{
    if i + e.len() <= t.len() {
        assert((p + t).subrange(p.len() + i, p.len() + i + e.len()) =~= t.subrange(i, i + e.len()));
    }
}

/// Decoding only looks ahead: what precedes the text does not change it.
proof fn lemma_unescaped_shift(p: Seq<u16>, t: Seq<u16>, i: int, keep_lt: bool)
    requires
        0 <= i,
    ensures
        unescaped_from(p + t, p.len() + i, keep_lt) == unescaped_from(t, i, keep_lt),
    decreases t.len() - i,
{
    let s = p + t;
    let k = p.len() + i;
    if i < t.len() {
        lemma_occurs_shift(p, t, i, escape_unit(AMPERSAND));
        lemma_occurs_shift(p, t, i, escape_unit(LESS_THAN));
        lemma_occurs_shift(p, t, i, escape_unit(DOUBLE_QUOTE));
        lemma_occurs_shift(p, t, i, escape_unit(SINGLE_QUOTE));
        lemma_entity_bounds(t, i);
        lemma_unescaped_shift(p, t, i + 1, keep_lt);
        if let Some((c, j)) = entity_at(t, i) {
            lemma_unescaped_shift(p, t, j + 1, keep_lt);
        }
    }
}

proof fn lemma_occurs_head(s: Seq<u16>, i: int, e: Seq<u16>)
    requires
        occurs_at(s, i, e),
        e.len() >= 3,
    ensures
        s[i] == e[0],
        s[i + 1] == e[1],
        s[i + 2] == e[2],
{
    assert(s.subrange(i, i + e.len())[0] == s[i]);
    assert(s.subrange(i, i + e.len())[1] == s[i + 1]);
    assert(s.subrange(i, i + e.len())[2] == s[i + 2]);
}

/// Decoding the entities of escaped text gives the text back.
pub proof fn lemma_unescape_escape(x: Seq<u16>)
    ensures
        unescaped(escaped(x)) == x,
    decreases x.len(),
{
    if x.len() > 0 {
        let rest = x.drop_first();
        let u = escape_unit(x[0]);
        let t = escaped(rest);
        lemma_unescape_escape(rest);
        lemma_unescaped_shift(u, t, 0, false);
        let s = u + t;
        assert(escaped(x) == s);
        assert(s.subrange(0, u.len() as int) =~= u);
        assert(s[0] == u[0]);
        if u.len() > 1 {
            assert(s[1] == u[1]);
            assert(s[2] == u[2]);
        }
        let a = escape_unit(AMPERSAND);
        let l = escape_unit(LESS_THAN);
        let q = escape_unit(DOUBLE_QUOTE);
        let p = escape_unit(SINGLE_QUOTE);
        if occurs_at(s, 0, a) {
            lemma_occurs_head(s, 0, a);
        }
        if occurs_at(s, 0, l) {
            lemma_occurs_head(s, 0, l);
        }
        if occurs_at(s, 0, q) {
            lemma_occurs_head(s, 0, q);
        }
        if occurs_at(s, 0, p) {
            lemma_occurs_head(s, 0, p);
        }
        assert(unescaped_from(s, 0, false) == seq![x[0]] + unescaped_from(s, u.len() as int, false));
        assert(seq![x[0]] + rest =~= x);
    } else {
        assert(escaped(x) =~= Seq::<u16>::empty());
    }
}

/// Text without backslashes comes out of the final unescape pass unchanged.
pub proof fn lemma_unbackslashed_unchanged(s: Seq<u16>)
    requires
        forall|j: int| 0 <= j < s.len() ==> #[trigger] s[j] != BACKSLASH,
    ensures
        unbackslashed(s) == s,
    decreases s.len(),
{
    if s.len() > 0 {
        assert(s[0] != BACKSLASH);
        assert forall|j: int| 0 <= j < s.drop_first().len() implies #[trigger] s.drop_first()[j]
            != BACKSLASH by {
            assert(s.drop_first()[j] == s[j + 1]);
        }
        lemma_unbackslashed_unchanged(s.drop_first());
        assert(seq![s[0]] + s.drop_first() =~= s);
    }
}

} // verus!
