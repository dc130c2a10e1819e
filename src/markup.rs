//! Fixed fragments of the emitted markup, as code units.
use vstd::prelude::*;

verus! {

/// `<p>`
pub open spec fn p_open() -> Seq<u16> {
    seq![60, 112, 62]
}

/// `<p>`
pub(crate) fn p_open_units() -> (r: Vec<u16>)
    ensures
        r@ == p_open(),
{
    vec![60, 112, 62]
}

/// `</p>`
pub open spec fn p_close() -> Seq<u16> {
    seq![60, 47, 112, 62]
}

/// `</p>`
pub(crate) fn p_close_units() -> (r: Vec<u16>)
    ensures
        r@ == p_close(),
{
    vec![60, 47, 112, 62]
}

/// `<hr />`
pub open spec fn hr() -> Seq<u16> {
    seq![60, 104, 114, 32, 47, 62]
}

/// `<hr />`
pub(crate) fn hr_units() -> (r: Vec<u16>)
    ensures
        r@ == hr(),
{
    vec![60, 104, 114, 32, 47, 62]
}

/// `<br />`
pub open spec fn br() -> Seq<u16> {
    seq![60, 98, 114, 32, 47, 62]
}

/// `<br />`
pub(crate) fn br_units() -> (r: Vec<u16>)
    ensures
        r@ == br(),
{
    vec![60, 98, 114, 32, 47, 62]
}

/// `<pre><code>`
pub open spec fn pre_code_open() -> Seq<u16> {
    seq![60, 112, 114, 101, 62, 60, 99, 111, 100, 101, 62]
}

/// `<pre><code>`
pub(crate) fn pre_code_open_units() -> (r: Vec<u16>)
    ensures
        r@ == pre_code_open(),
{
    vec![60, 112, 114, 101, 62, 60, 99, 111, 100, 101, 62]
}

/// `</code></pre>`
pub open spec fn pre_code_close() -> Seq<u16> {
    seq![60, 47, 99, 111, 100, 101, 62, 60, 47, 112, 114, 101, 62]
}

/// `</code></pre>`
pub(crate) fn pre_code_close_units() -> (r: Vec<u16>)
    ensures
        r@ == pre_code_close(),
{
    vec![60, 47, 99, 111, 100, 101, 62, 60, 47, 112, 114, 101, 62]
}

/// `<h`
pub open spec fn h_open() -> Seq<u16> {
    seq![60, 104]
}

/// `<h`
pub(crate) fn h_open_units() -> (r: Vec<u16>)
    ensures
        r@ == h_open(),
{
    vec![60, 104]
}

/// ` id="`
pub open spec fn id_attr_open() -> Seq<u16> {
    seq![32, 105, 100, 61, 34]
}

/// ` id="`
pub(crate) fn id_attr_open_units() -> (r: Vec<u16>)
    ensures
        r@ == id_attr_open(),
{
    vec![32, 105, 100, 61, 34]
}

/// `">`
pub open spec fn attr_close() -> Seq<u16> {
    seq![34, 62]
}

/// `">`
pub(crate) fn attr_close_units() -> (r: Vec<u16>)
    ensures
        r@ == attr_close(),
{
    vec![34, 62]
}

/// `</h`
pub open spec fn h_close() -> Seq<u16> {
    seq![60, 47, 104]
}

/// `</h`
pub(crate) fn h_close_units() -> (r: Vec<u16>)
    ensures
        r@ == h_close(),
{
    vec![60, 47, 104]
}

/// `>`
pub open spec fn gt() -> Seq<u16> {
    seq![62]
}

/// `>`
pub(crate) fn gt_units() -> (r: Vec<u16>)
    ensures
        r@ == gt(),
{
    vec![62]
}

/// `<blockquote>`
pub open spec fn blockquote_open() -> Seq<u16> {
    seq![60, 98, 108, 111, 99, 107, 113, 117, 111, 116, 101, 62]
}

/// `<blockquote>`
pub(crate) fn blockquote_open_units() -> (r: Vec<u16>)
    ensures
        r@ == blockquote_open(),
{
    vec![60, 98, 108, 111, 99, 107, 113, 117, 111, 116, 101, 62]
}

/// `</blockquote>`
pub open spec fn blockquote_close() -> Seq<u16> {
    seq![60, 47, 98, 108, 111, 99, 107, 113, 117, 111, 116, 101, 62]
}

/// `</blockquote>`
pub(crate) fn blockquote_close_units() -> (r: Vec<u16>)
    ensures
        r@ == blockquote_close(),
{
    vec![60, 47, 98, 108, 111, 99, 107, 113, 117, 111, 116, 101, 62]
}

/// `<ul>`
pub open spec fn ul_open() -> Seq<u16> {
    seq![60, 117, 108, 62]
}

/// `<ul>`
pub(crate) fn ul_open_units() -> (r: Vec<u16>)
    ensures
        r@ == ul_open(),
{
    vec![60, 117, 108, 62]
}

/// `</ul>`
pub open spec fn ul_close() -> Seq<u16> {
    seq![60, 47, 117, 108, 62]
}

/// `</ul>`
pub(crate) fn ul_close_units() -> (r: Vec<u16>)
    ensures
        r@ == ul_close(),
{
    vec![60, 47, 117, 108, 62]
}

/// `</ol>`
pub open spec fn ol_close() -> Seq<u16> {
    seq![60, 47, 111, 108, 62]
}

/// `</ol>`
pub(crate) fn ol_close_units() -> (r: Vec<u16>)
    ensures
        r@ == ol_close(),
{
    vec![60, 47, 111, 108, 62]
}

/// `<ol type="1">`
pub open spec fn ol_num_open() -> Seq<u16> {
    seq![60, 111, 108, 32, 116, 121, 112, 101, 61, 34, 49, 34, 62]
}

/// `<ol type="1">`
pub(crate) fn ol_num_open_units() -> (r: Vec<u16>)
    ensures
        r@ == ol_num_open(),
{
    vec![60, 111, 108, 32, 116, 121, 112, 101, 61, 34, 49, 34, 62]
}

/// `<ol type="a">`
pub open spec fn ol_alpha_low_open() -> Seq<u16> {
    seq![60, 111, 108, 32, 116, 121, 112, 101, 61, 34, 97, 34, 62]
}

/// `<ol type="a">`
pub(crate) fn ol_alpha_low_open_units() -> (r: Vec<u16>)
    ensures
        r@ == ol_alpha_low_open(),
{
    vec![60, 111, 108, 32, 116, 121, 112, 101, 61, 34, 97, 34, 62]
}

/// `<ol type="A">`
pub open spec fn ol_alpha_upper_open() -> Seq<u16> {
    seq![60, 111, 108, 32, 116, 121, 112, 101, 61, 34, 65, 34, 62]
}

/// `<ol type="A">`
pub(crate) fn ol_alpha_upper_open_units() -> (r: Vec<u16>)
    ensures
        r@ == ol_alpha_upper_open(),
{
    vec![60, 111, 108, 32, 116, 121, 112, 101, 61, 34, 65, 34, 62]
}

/// `<ol type="i">`
pub open spec fn ol_roman_low_open() -> Seq<u16> {
    seq![60, 111, 108, 32, 116, 121, 112, 101, 61, 34, 105, 34, 62]
}

/// `<ol type="i">`
pub(crate) fn ol_roman_low_open_units() -> (r: Vec<u16>)
    ensures
        r@ == ol_roman_low_open(),
{
    vec![60, 111, 108, 32, 116, 121, 112, 101, 61, 34, 105, 34, 62]
}

/// `<ol type="I">`
pub open spec fn ol_roman_upper_open() -> Seq<u16> {
    seq![60, 111, 108, 32, 116, 121, 112, 101, 61, 34, 73, 34, 62]
}

/// `<ol type="I">`
pub(crate) fn ol_roman_upper_open_units() -> (r: Vec<u16>)
    ensures
        r@ == ol_roman_upper_open(),
{
    vec![60, 111, 108, 32, 116, 121, 112, 101, 61, 34, 73, 34, 62]
}

/// `<li>`
pub open spec fn li_open() -> Seq<u16> {
    seq![60, 108, 105, 62]
}

/// `<li>`
pub(crate) fn li_open_units() -> (r: Vec<u16>)
    ensures
        r@ == li_open(),
{
    vec![60, 108, 105, 62]
}

/// `</li>`
pub open spec fn li_close() -> Seq<u16> {
    seq![60, 47, 108, 105, 62]
}

/// `</li>`
pub(crate) fn li_close_units() -> (r: Vec<u16>)
    ensures
        r@ == li_close(),
{
    vec![60, 47, 108, 105, 62]
}

/// `<div class="unchecked_box"></div>`
pub open spec fn unchecked_box() -> Seq<u16> {
    seq![60, 100, 105, 118, 32, 99, 108, 97, 115, 115, 61, 34, 117, 110, 99, 104, 101, 99, 107, 101, 100, 95, 98, 111, 120, 34, 62, 60, 47, 100, 105, 118, 62]
}

/// `<div class="unchecked_box"></div>`
pub(crate) fn unchecked_box_units() -> (r: Vec<u16>)
    ensures
        r@ == unchecked_box(),
{
    vec![60, 100, 105, 118, 32, 99, 108, 97, 115, 115, 61, 34, 117, 110, 99, 104, 101, 99, 107, 101, 100, 95, 98, 111, 120, 34, 62, 60, 47, 100, 105, 118, 62]
}

/// `<div class="checked_box"><span class="checkmark"></span></div>`
pub open spec fn checked_box() -> Seq<u16> {
    seq![60, 100, 105, 118, 32, 99, 108, 97, 115, 115, 61, 34, 99, 104, 101, 99, 107, 101, 100, 95, 98, 111, 120, 34, 62, 60, 115, 112, 97, 110, 32, 99, 108, 97, 115, 115, 61, 34, 99, 104, 101, 99, 107, 109, 97, 114, 107, 34, 62, 60, 47, 115, 112, 97, 110, 62, 60, 47, 100, 105, 118, 62]
}

/// `<div class="checked_box"><span class="checkmark"></span></div>`
pub(crate) fn checked_box_units() -> (r: Vec<u16>)
    ensures
        r@ == checked_box(),
{
    vec![60, 100, 105, 118, 32, 99, 108, 97, 115, 115, 61, 34, 99, 104, 101, 99, 107, 101, 100, 95, 98, 111, 120, 34, 62, 60, 115, 112, 97, 110, 32, 99, 108, 97, 115, 115, 61, 34, 99, 104, 101, 99, 107, 109, 97, 114, 107, 34, 62, 60, 47, 115, 112, 97, 110, 62, 60, 47, 100, 105, 118, 62]
}

/// `<table>`
pub open spec fn table_open() -> Seq<u16> {
    seq![60, 116, 97, 98, 108, 101, 62]
}

/// `<table>`
pub(crate) fn table_open_units() -> (r: Vec<u16>)
    ensures
        r@ == table_open(),
{
    vec![60, 116, 97, 98, 108, 101, 62]
}

/// `</table>`
pub open spec fn table_close() -> Seq<u16> {
    seq![60, 47, 116, 97, 98, 108, 101, 62]
}

/// `</table>`
pub(crate) fn table_close_units() -> (r: Vec<u16>)
    ensures
        r@ == table_close(),
{
    vec![60, 47, 116, 97, 98, 108, 101, 62]
}

/// `<thead>`
pub open spec fn thead_open() -> Seq<u16> {
    seq![60, 116, 104, 101, 97, 100, 62]
}

/// `<thead>`
pub(crate) fn thead_open_units() -> (r: Vec<u16>)
    ensures
        r@ == thead_open(),
{
    vec![60, 116, 104, 101, 97, 100, 62]
}

/// `</thead>`
pub open spec fn thead_close() -> Seq<u16> {
    seq![60, 47, 116, 104, 101, 97, 100, 62]
}

/// `</thead>`
pub(crate) fn thead_close_units() -> (r: Vec<u16>)
    ensures
        r@ == thead_close(),
{
    vec![60, 47, 116, 104, 101, 97, 100, 62]
}

/// `<tbody>`
pub open spec fn tbody_open() -> Seq<u16> {
    seq![60, 116, 98, 111, 100, 121, 62]
}

/// `<tbody>`
pub(crate) fn tbody_open_units() -> (r: Vec<u16>)
    ensures
        r@ == tbody_open(),
{
    vec![60, 116, 98, 111, 100, 121, 62]
}

/// `</tbody>`
pub open spec fn tbody_close() -> Seq<u16> {
    seq![60, 47, 116, 98, 111, 100, 121, 62]
}

/// `</tbody>`
pub(crate) fn tbody_close_units() -> (r: Vec<u16>)
    ensures
        r@ == tbody_close(),
{
    vec![60, 47, 116, 98, 111, 100, 121, 62]
}

/// `<th>`
pub open spec fn th_open() -> Seq<u16> {
    seq![60, 116, 104, 62]
}

/// `<th>`
pub(crate) fn th_open_units() -> (r: Vec<u16>)
    ensures
        r@ == th_open(),
{
    vec![60, 116, 104, 62]
}

/// `</th>`
pub open spec fn th_close() -> Seq<u16> {
    seq![60, 47, 116, 104, 62]
}

/// `</th>`
pub(crate) fn th_close_units() -> (r: Vec<u16>)
    ensures
        r@ == th_close(),
{
    vec![60, 47, 116, 104, 62]
}

/// `<tr>`
pub open spec fn tr_open() -> Seq<u16> {
    seq![60, 116, 114, 62]
}

/// `<tr>`
pub(crate) fn tr_open_units() -> (r: Vec<u16>)
    ensures
        r@ == tr_open(),
{
    vec![60, 116, 114, 62]
}

/// `</tr>`
pub open spec fn tr_close() -> Seq<u16> {
    seq![60, 47, 116, 114, 62]
}

/// `</tr>`
pub(crate) fn tr_close_units() -> (r: Vec<u16>)
    ensures
        r@ == tr_close(),
{
    vec![60, 47, 116, 114, 62]
}

/// `</td>`
pub open spec fn td_close() -> Seq<u16> {
    seq![60, 47, 116, 100, 62]
}

/// `</td>`
pub(crate) fn td_close_units() -> (r: Vec<u16>)
    ensures
        r@ == td_close(),
{
    vec![60, 47, 116, 100, 62]
}

/// `<td class="align_left">`
pub open spec fn td_left() -> Seq<u16> {
    seq![60, 116, 100, 32, 99, 108, 97, 115, 115, 61, 34, 97, 108, 105, 103, 110, 95, 108, 101, 102, 116, 34, 62]
}

/// `<td class="align_left">`
pub(crate) fn td_left_units() -> (r: Vec<u16>)
    ensures
        r@ == td_left(),
{
    vec![60, 116, 100, 32, 99, 108, 97, 115, 115, 61, 34, 97, 108, 105, 103, 110, 95, 108, 101, 102, 116, 34, 62]
}

/// `<td class="align_center">`
pub open spec fn td_center() -> Seq<u16> {
    seq![60, 116, 100, 32, 99, 108, 97, 115, 115, 61, 34, 97, 108, 105, 103, 110, 95, 99, 101, 110, 116, 101, 114, 34, 62]
}

/// `<td class="align_center">`
pub(crate) fn td_center_units() -> (r: Vec<u16>)
    ensures
        r@ == td_center(),
{
    vec![60, 116, 100, 32, 99, 108, 97, 115, 115, 61, 34, 97, 108, 105, 103, 110, 95, 99, 101, 110, 116, 101, 114, 34, 62]
}

/// `<td class="align_right">`
pub open spec fn td_right() -> Seq<u16> {
    seq![60, 116, 100, 32, 99, 108, 97, 115, 115, 61, 34, 97, 108, 105, 103, 110, 95, 114, 105, 103, 104, 116, 34, 62]
}

/// `<td class="align_right">`
pub(crate) fn td_right_units() -> (r: Vec<u16>)
    ensures
        r@ == td_right(),
{
    vec![60, 116, 100, 32, 99, 108, 97, 115, 115, 61, 34, 97, 108, 105, 103, 110, 95, 114, 105, 103, 104, 116, 34, 62]
}

/// `<code class="short">`
pub open spec fn code_short_open() -> Seq<u16> {
    seq![60, 99, 111, 100, 101, 32, 99, 108, 97, 115, 115, 61, 34, 115, 104, 111, 114, 116, 34, 62]
}

/// `<code class="short">`
pub(crate) fn code_short_open_units() -> (r: Vec<u16>)
    ensures
        r@ == code_short_open(),
{
    vec![60, 99, 111, 100, 101, 32, 99, 108, 97, 115, 115, 61, 34, 115, 104, 111, 114, 116, 34, 62]
}

/// `</code>`
pub open spec fn code_close() -> Seq<u16> {
    seq![60, 47, 99, 111, 100, 101, 62]
}

/// `</code>`
pub(crate) fn code_close_units() -> (r: Vec<u16>)
    ensures
        r@ == code_close(),
{
    vec![60, 47, 99, 111, 100, 101, 62]
}

/// `<em>`
pub open spec fn em_open() -> Seq<u16> {
    seq![60, 101, 109, 62]
}

/// `<em>`
pub(crate) fn em_open_units() -> (r: Vec<u16>)
    ensures
        r@ == em_open(),
{
    vec![60, 101, 109, 62]
}

/// `</em>`
pub open spec fn em_close() -> Seq<u16> {
    seq![60, 47, 101, 109, 62]
}

/// `</em>`
pub(crate) fn em_close_units() -> (r: Vec<u16>)
    ensures
        r@ == em_close(),
{
    vec![60, 47, 101, 109, 62]
}

/// `<strong>`
pub open spec fn strong_open() -> Seq<u16> {
    seq![60, 115, 116, 114, 111, 110, 103, 62]
}

/// `<strong>`
pub(crate) fn strong_open_units() -> (r: Vec<u16>)
    ensures
        r@ == strong_open(),
{
    vec![60, 115, 116, 114, 111, 110, 103, 62]
}

/// `</strong>`
pub open spec fn strong_close() -> Seq<u16> {
    seq![60, 47, 115, 116, 114, 111, 110, 103, 62]
}

/// `</strong>`
pub(crate) fn strong_close_units() -> (r: Vec<u16>)
    ensures
        r@ == strong_close(),
{
    vec![60, 47, 115, 116, 114, 111, 110, 103, 62]
}

/// `<del>`
pub open spec fn del_open() -> Seq<u16> {
    seq![60, 100, 101, 108, 62]
}

/// `<del>`
pub(crate) fn del_open_units() -> (r: Vec<u16>)
    ensures
        r@ == del_open(),
{
    vec![60, 100, 101, 108, 62]
}

/// `</del>`
pub open spec fn del_close() -> Seq<u16> {
    seq![60, 47, 100, 101, 108, 62]
}

/// `</del>`
pub(crate) fn del_close_units() -> (r: Vec<u16>)
    ensures
        r@ == del_close(),
{
    vec![60, 47, 100, 101, 108, 62]
}

/// `<u>`
pub open spec fn u_open() -> Seq<u16> {
    seq![60, 117, 62]
}

/// `<u>`
pub(crate) fn u_open_units() -> (r: Vec<u16>)
    ensures
        r@ == u_open(),
{
    vec![60, 117, 62]
}

/// `</u>`
pub open spec fn u_close() -> Seq<u16> {
    seq![60, 47, 117, 62]
}

/// `</u>`
pub(crate) fn u_close_units() -> (r: Vec<u16>)
    ensures
        r@ == u_close(),
{
    vec![60, 47, 117, 62]
}

/// `<sub>`
pub open spec fn sub_open() -> Seq<u16> {
    seq![60, 115, 117, 98, 62]
}

/// `<sub>`
pub(crate) fn sub_open_units() -> (r: Vec<u16>)
    ensures
        r@ == sub_open(),
{
    vec![60, 115, 117, 98, 62]
}

/// `</sub>`
pub open spec fn sub_close() -> Seq<u16> {
    seq![60, 47, 115, 117, 98, 62]
}

/// `</sub>`
pub(crate) fn sub_close_units() -> (r: Vec<u16>)
    ensures
        r@ == sub_close(),
{
    vec![60, 47, 115, 117, 98, 62]
}

/// `<sup>`
pub open spec fn sup_open() -> Seq<u16> {
    seq![60, 115, 117, 112, 62]
}

/// `<sup>`
pub(crate) fn sup_open_units() -> (r: Vec<u16>)
    ensures
        r@ == sup_open(),
{
    vec![60, 115, 117, 112, 62]
}

/// `</sup>`
pub open spec fn sup_close() -> Seq<u16> {
    seq![60, 47, 115, 117, 112, 62]
}

/// `</sup>`
pub(crate) fn sup_close_units() -> (r: Vec<u16>)
    ensures
        r@ == sup_close(),
{
    vec![60, 47, 115, 117, 112, 62]
}

/// `<img src="`
pub open spec fn img_src_open() -> Seq<u16> {
    seq![60, 105, 109, 103, 32, 115, 114, 99, 61, 34]
}

/// `<img src="`
pub(crate) fn img_src_open_units() -> (r: Vec<u16>)
    ensures
        r@ == img_src_open(),
{
    vec![60, 105, 109, 103, 32, 115, 114, 99, 61, 34]
}

/// `" alt="`
pub open spec fn alt_attr() -> Seq<u16> {
    seq![34, 32, 97, 108, 116, 61, 34]
}

/// `" alt="`
pub(crate) fn alt_attr_units() -> (r: Vec<u16>)
    ensures
        r@ == alt_attr(),
{
    vec![34, 32, 97, 108, 116, 61, 34]
}

/// `" title="`
pub open spec fn title_attr() -> Seq<u16> {
    seq![34, 32, 116, 105, 116, 108, 101, 61, 34]
}

/// `" title="`
pub(crate) fn title_attr_units() -> (r: Vec<u16>)
    ensures
        r@ == title_attr(),
{
    vec![34, 32, 116, 105, 116, 108, 101, 61, 34]
}

/// `<a href="`
pub open spec fn a_href_open() -> Seq<u16> {
    seq![60, 97, 32, 104, 114, 101, 102, 61, 34]
}

/// `<a href="`
pub(crate) fn a_href_open_units() -> (r: Vec<u16>)
    ensures
        r@ == a_href_open(),
{
    vec![60, 97, 32, 104, 114, 101, 102, 61, 34]
}

/// `</a>`
pub open spec fn a_close() -> Seq<u16> {
    seq![60, 47, 97, 62]
}

/// `</a>`
pub(crate) fn a_close_units() -> (r: Vec<u16>)
    ensures
        r@ == a_close(),
{
    vec![60, 47, 97, 62]
}

/// `<span class="font_`
pub open spec fn font_span_open() -> Seq<u16> {
    seq![60, 115, 112, 97, 110, 32, 99, 108, 97, 115, 115, 61, 34, 102, 111, 110, 116, 95]
}

/// `<span class="font_`
pub(crate) fn font_span_open_units() -> (r: Vec<u16>)
    ensures
        r@ == font_span_open(),
{
    vec![60, 115, 112, 97, 110, 32, 99, 108, 97, 115, 115, 61, 34, 102, 111, 110, 116, 95]
}

/// `</span>`
pub open spec fn span_close() -> Seq<u16> {
    seq![60, 47, 115, 112, 97, 110, 62]
}

/// `</span>`
pub(crate) fn span_close_units() -> (r: Vec<u16>)
    ensures
        r@ == span_close(),
{
    vec![60, 47, 115, 112, 97, 110, 62]
}

/// `<div class="align_`
pub open spec fn align_div_open() -> Seq<u16> {
    seq![60, 100, 105, 118, 32, 99, 108, 97, 115, 115, 61, 34, 97, 108, 105, 103, 110, 95]
}

/// `<div class="align_`
pub(crate) fn align_div_open_units() -> (r: Vec<u16>)
    ensures
        r@ == align_div_open(),
{
    vec![60, 100, 105, 118, 32, 99, 108, 97, 115, 115, 61, 34, 97, 108, 105, 103, 110, 95]
}

/// `<div class="box">`
pub open spec fn box_div() -> Seq<u16> {
    seq![60, 100, 105, 118, 32, 99, 108, 97, 115, 115, 61, 34, 98, 111, 120, 34, 62]
}

/// `<div class="box">`
pub(crate) fn box_div_units() -> (r: Vec<u16>)
    ensures
        r@ == box_div(),
{
    vec![60, 100, 105, 118, 32, 99, 108, 97, 115, 115, 61, 34, 98, 111, 120, 34, 62]
}

/// `</div>`
pub open spec fn div_close() -> Seq<u16> {
    seq![60, 47, 100, 105, 118, 62]
}

/// `</div>`
pub(crate) fn div_close_units() -> (r: Vec<u16>)
    ensures
        r@ == div_close(),
{
    vec![60, 47, 100, 105, 118, 62]
}

/// `&nbsp;`
pub open spec fn nbsp() -> Seq<u16> {
    seq![38, 110, 98, 115, 112, 59]
}

/// `&nbsp;`
pub(crate) fn nbsp_units() -> (r: Vec<u16>)
    ensures
        r@ == nbsp(),
{
    vec![38, 110, 98, 115, 112, 59]
}

/// `<span class="line_no">`
pub open spec fn line_no_open() -> Seq<u16> {
    seq![60, 115, 112, 97, 110, 32, 99, 108, 97, 115, 115, 61, 34, 108, 105, 110, 101, 95, 110, 111, 34, 62]
}

/// `<span class="line_no">`
pub(crate) fn line_no_open_units() -> (r: Vec<u16>)
    ensures
        r@ == line_no_open(),
{
    vec![60, 115, 112, 97, 110, 32, 99, 108, 97, 115, 115, 61, 34, 108, 105, 110, 101, 95, 110, 111, 34, 62]
}

} // verus!
