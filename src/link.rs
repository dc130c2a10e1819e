//! Links and images of the inline cascade.
use vstd::prelude::*;
use crate::decoration::{emphasized, render_italic, ITALIC};
use crate::escape::{undo_html_escapes_safely, unescaped_safely};
use crate::markup::{
    a_close, a_close_units, a_href_open, a_href_open_units, alt_attr, alt_attr_units, attr_close,
    attr_close_units, img_src_open, img_src_open_units, title_attr, title_attr_units,
};
use crate::units::{
    EXCLAMATION, LEFT_PARENTHESIS, LEFT_SQUARE_BRACKET, RIGHT_PARENTHESIS, RIGHT_SQUARE_BRACKET,
};
use crate::utils::{
    copy_range, get_bracket_end_index, get_parenthesis_end_index, lemma_partner_from_range,
    partner, push_all, remove_special_characters, word_units,
};

verus! {

/// End of the bracket group opened at `i`.
pub open spec fn bracket_end(s: Seq<u16>, i: int) -> Option<int> {
    partner(s, i, LEFT_SQUARE_BRACKET, RIGHT_SQUARE_BRACKET)
}

/// End of the parenthesis group opened at `i`.
pub open spec fn parenthesis_end(s: Seq<u16>, i: int) -> Option<int> {
    partner(s, i, LEFT_PARENTHESIS, RIGHT_PARENTHESIS)
}

/// A balanced `[...]` starts at `i`, followed at once by a balanced `(...)`.
pub open spec fn link_at(s: Seq<u16>, i: int) -> bool {
    &&& s[i] == LEFT_SQUARE_BRACKET
    &&& bracket_end(s, i) matches Some(e)
    &&& e + 1 < s.len()
    &&& s[e + 1] == LEFT_PARENTHESIS
    &&& parenthesis_end(s, e + 1) is Some
}

/// An `<img>` whose source is `target` and whose alt text and title are the
/// word units of `text`.
pub open spec fn image_html(text: Seq<u16>, target: Seq<u16>) -> Seq<u16> {
    img_src_open() + unescaped_safely(target) + alt_attr() + word_units(text) + title_attr()
        + word_units(text) + attr_close()
}

/// An `<a>` to `target` showing `text`.
pub open spec fn anchor_html(text: Seq<u16>, target: Seq<u16>) -> Seq<u16> {
    a_href_open() + unescaped_safely(target) + attr_close() + text + a_close()
}

/// Scans for links from `i`, appending to `acc`; a `!` just before a link
/// turns it into an image.
pub open spec fn links_from(s: Seq<u16>, i: int, acc: Seq<u16>) -> Seq<u16>
    decreases s.len() - i,
{
    if i < 0 || i >= s.len() {
        acc
    } else if link_at(s, i) {
        let e = bracket_end(s, i).unwrap();
        let re = parenthesis_end(s, e + 1).unwrap();
        if i < e && e + 2 <= re && re < s.len() {
            let text = s.subrange(i + 1, e);
            let target = s.subrange(e + 2, re);
            if i > 0 && s[i - 1] == EXCLAMATION {
                links_from(s, re + 1, acc.drop_last() + image_html(text, target))
            } else {
                links_from(s, re + 1, acc + anchor_html(text, target))
            }
        } else {
            acc
        }
    } else {
        links_from(s, i + 1, acc.push(s[i]))
    }
}

/// Links and images of `s` rendered; the text is not decorated yet.
pub open spec fn with_links(s: Seq<u16>) -> Seq<u16> {
    links_from(s, 0, Seq::empty())
}

/// Links and images of `s`, then the emphasis chain on the whole result.
pub open spec fn linked(s: Seq<u16>) -> Seq<u16> {
    emphasized(ITALIC as nat, with_links(s))
}

proof fn lemma_links_from_no_bracket(s: Seq<u16>, i: int)
    requires
        0 <= i <= s.len(),
        forall|j: int| 0 <= j < s.len() ==> s[j] != LEFT_SQUARE_BRACKET,
    ensures
        links_from(s, i, s.subrange(0, i)) == s,
    decreases s.len() - i,
{
    if i < s.len() {
        assert(s.subrange(0, i).push(s[i]) =~= s.subrange(0, i + 1));
        lemma_links_from_no_bracket(s, i + 1);
    } else {
        assert(s.subrange(0, i) =~= s);
    }
}

/// Text without `[` holds no link: the link pass gives it back unchanged.
pub proof fn lemma_with_links_no_bracket(s: Seq<u16>)
    requires
        forall|j: int| 0 <= j < s.len() ==> s[j] != LEFT_SQUARE_BRACKET,
    ensures
        with_links(s) == s,
{
    lemma_links_from_no_bracket(s, 0);
    assert(s.subrange(0, 0) =~= Seq::<u16>::empty());
}

fn is_valid_link(content: &Vec<u16>, index: usize) -> (r: bool)
    requires
        index < content@.len(),
    ensures
        r == link_at(content@, index as int),
{
    if content[index] != LEFT_SQUARE_BRACKET {
        return false;
    }
    match get_bracket_end_index(content, index) {
        None => false,
        Some(i) => {
            proof {
                lemma_partner_from_range(
                    content@,
                    index as int,
                    0,
                    LEFT_SQUARE_BRACKET,
                    RIGHT_SQUARE_BRACKET,
                );
            }
            if content.len() - i > 1 && content[i + 1] == LEFT_PARENTHESIS {
                match get_parenthesis_end_index(content, i + 1) {
                    None => false,
                    Some(_) => true,
                }
            } else {
                false
            }
        },
    }
}

/// Renders links and images, then the emphasis chain on the result.
pub fn render_link(content: &Vec<u16>) -> (r: Vec<u16>)
    ensures
        r@ == linked(content@),
{
    let n = content.len();
    let mut r: Vec<u16> = Vec::new();
    let mut i: usize = 0;
    while i < n
        invariant
            n == content@.len(),
            i <= n,
            i > 0 ==> r@.len() > 0,
            links_from(content@, i as int, r@) == with_links(content@),
        decreases n - i,
    {
        if is_valid_link(content, i) {
            let e = get_bracket_end_index(content, i).unwrap();
            let re = get_parenthesis_end_index(content, e + 1).unwrap();
            proof {
                lemma_partner_from_range(content@, i as int, 0, LEFT_SQUARE_BRACKET, RIGHT_SQUARE_BRACKET);
                lemma_partner_from_range(content@, e + 1, 0, LEFT_PARENTHESIS, RIGHT_PARENTHESIS);
            }
            let text = copy_range(content, i + 1, e);
            let target = copy_range(content, e + 2, re);
            let ghost acc0 = r@;
            proof {
                assert(re >= e + 2) by {
                    assert(content@[e + 1] == LEFT_PARENTHESIS);
                    assert(content@[re as int] == RIGHT_PARENTHESIS);
                }
            }
            if i > 0 && content[i - 1] == EXCLAMATION {
                let words = remove_special_characters(&text);
                r.pop();
                push_all(&mut r, &img_src_open_units());
                push_all(&mut r, &undo_html_escapes_safely(&target));
                push_all(&mut r, &alt_attr_units());
                push_all(&mut r, &words);
                push_all(&mut r, &title_attr_units());
                push_all(&mut r, &words);
                push_all(&mut r, &attr_close_units());
                proof {
                    assert(r@ =~= acc0.drop_last() + image_html(text@, target@));
                }
            } else {
                push_all(&mut r, &a_href_open_units());
                push_all(&mut r, &undo_html_escapes_safely(&target));
                push_all(&mut r, &attr_close_units());
                push_all(&mut r, &text);
                push_all(&mut r, &a_close_units());
                proof {
                    assert(r@ =~= acc0 + anchor_html(text@, target@));
                }
            }
            i = re + 1;
        } else {
            r.push(content[i]);
            i += 1;
        }
    }
    render_italic(&r)
}

} // verus!
