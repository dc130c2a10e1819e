use markdown_html::escape::{
    escape_backslashes, escape_htmls, is_escaped, prevent_backslash_escape, undo_html_escapes,
    undo_html_escapes_safely,
};
use markdown_html::icon::get_icon;
use markdown_html::line::{code_to_lines, Line, LineType};
use markdown_html::markdown;
use markdown_html::numbers::parse_i32;
use markdown_html::predicates::get_type;
use markdown_html::utils::{
    drop_while, get_bracket_end_index, get_parenthesis_end_index, lowercase,
    remove_special_characters, take_and_drop_while, take_while,
};

fn units(s: &str) -> Vec<u16> {
    s.encode_utf16().collect()
}

fn html(md: &str) -> String {
    markdown::render(&md.to_string()).unwrap()
}

#[test]
fn partner_test() {
    let org = units("[name](link)");

    assert_eq!(get_bracket_end_index(&org, 0), Some(5));
    assert_eq!(get_bracket_end_index(&org, 1), None);
    assert_eq!(get_parenthesis_end_index(&org, 6), Some(11));
    assert_eq!(get_parenthesis_end_index(&org, 7), None);
}

#[test]
fn icon_test() {
    assert!(get_icon(&vec![99], 20, 0, 0, 0).is_none());
}

#[test]
fn plain_text_is_one_paragraph() {
    assert_eq!(html("Hello plain world 42"), "<p>Hello plain world 42</p>\n");
    assert_eq!(html("a < b & c"), "<p>a &lt; b &amp; c</p>\n");
}

#[test]
fn escape_and_unescape_round_trip() {
    let text = units("&<\"'&\"'&<&");
    let escaped = escape_htmls(&text);
    assert_eq!(escaped, units("&amp;&lt;&quot;&apos;&amp;&quot;&apos;&amp;&lt;&amp;"));
    assert_eq!(undo_html_escapes(&escaped), text);
}

#[test]
fn final_less_than_entity_is_decoded() {
    assert_eq!(undo_html_escapes(&units("&lt;")), units("<"));
    assert_eq!(undo_html_escapes(&escape_htmls(&units("a<"))), units("a<"));
    assert_eq!(is_escaped(&units("&lt;"), 0), Some((60, 3)));
    assert_eq!(undo_html_escapes(&units("&lt;x")), units("<x"));
}

#[test]
fn safe_unescape_keeps_less_than() {
    assert_eq!(undo_html_escapes_safely(&units("&lt;a&amp;b&quot;")), units("&lt;a&b\""));
}

#[test]
fn entity_detection() {
    let v = units("x&apos;y");
    assert_eq!(is_escaped(&v, 1), Some((39, 6)));
    assert_eq!(is_escaped(&v, 0), None);
}

#[test]
fn backslash_escape_resolves_one_layer() {
    assert_eq!(escape_backslashes(&units("\\a")), units("a"));
    assert_eq!(escape_backslashes(&units("\\\\")), units("\\"));
    assert_eq!(escape_backslashes(&units("a\\")), units("a"));
    let text = units("x\\y\\\\z");
    assert_eq!(escape_backslashes(&prevent_backslash_escape(&text)), text);
    assert_eq!(prevent_backslash_escape(&units("a\\b")), units("a\\\\b"));
}

#[test]
fn header_levels() {
    assert_eq!(html("# h1"), "<h1 id=\"h1\">h1</h1>\n");
    assert_eq!(html("###### six"), "<h6 id=\"six\">six</h6>\n");
    assert_eq!(html("####### x"), "<p>####### x</p>\n");
    assert_eq!(html("#"), "<p>#</p>\n");
}

#[test]
fn thematic_break_markers() {
    assert_eq!(html("---"), "<hr />\n");
    assert_eq!(html("***"), "<hr />\n");
    assert_eq!(html("___"), "<hr />\n");
    assert_eq!(html("---   "), "<hr />\n");
    assert_eq!(html("-*-"), "<p>-*-</p>\n");
}

#[test]
fn paragraph_merging() {
    assert_eq!(html("a\n\nb"), "<p>a</p>\n\n<p>b</p>\n");
    assert_eq!(html("a\nb"), "<p>a b</p>\n");
    assert_eq!(html("ab  \ncd"), "<p>ab  <br />cd</p>\n");
}

#[test]
fn fenced_content_is_literal() {
    assert_eq!(
        html("```\n*not emphasis* <b>\n```"),
        "<pre><code>*not emphasis* &lt;b></code></pre>\n"
    );
    assert_eq!(html("```\na\\b\n```"), "<pre><code>a\\b</code></pre>\n");
}

#[test]
fn fence_line_numbers() {
    assert_eq!(
        html("```(7)\na\nb\n```"),
        "<pre><code><span class=\"line_no\">7</span>a\n<span class=\"line_no\">8</span>b</code></pre>\n"
    );
    assert_eq!(
        html("```(1)\na\nb\nc\n```"),
        "<pre><code><span class=\"line_no\">1</span>a\n<span class=\"line_no\">2</span>b\n<span class=\"line_no\">3</span>c</code></pre>\n"
    );
}

#[test]
fn unterminated_fence_is_flushed() {
    assert_eq!(html("```\nabc"), "<pre><code>abc</code></pre>\n");
    assert_eq!(html("```\n```"), "<pre><code></code></pre>\n");
}

#[test]
fn nested_list_types() {
    assert_eq!(
        html("1. a\n  i. b\n  i. c\n1. d"),
        "<ol type=\"1\"><li>a<ol type=\"i\"><li>b</li><li>c</li></ol></li><li>d</li></ol>\n"
    );
    assert_eq!(html("- x\n- y"), "<ul><li>x</li><li>y</li></ul>\n");
    assert_eq!(html("A. x"), "<ol type=\"A\"><li>x</li></ol>\n");
}

#[test]
fn task_list_items() {
    assert_eq!(
        html("- [ ] todo\n- [x] done"),
        "<ul><li><div class=\"unchecked_box\"></div> todo</li><li><div class=\"checked_box\"><span class=\"checkmark\"></span></div> done</li></ul>\n"
    );
}

#[test]
fn list_lazy_continuation() {
    assert_eq!(html("- a\nb"), "<ul><li>a b</li></ul>\n");
}

#[test]
fn table_with_alignments() {
    assert_eq!(
        html("|a|b|c|\n|:-:|--:|:--|\n|1|2|3|"),
        "<table><thead><th>a</th><th>b</th><th>c</th></thead><tbody><tr><td class=\"align_center\">1</td><td class=\"align_right\">2</td><td class=\"align_left\">3</td></tr></tbody></table>\n"
    );
}

#[test]
fn table_row_cells_beyond_columns_are_dropped() {
    assert_eq!(
        html("|a|\n|-|\n|1|2|"),
        "<table><thead><th>a</th></thead><tbody><tr><td class=\"align_left\">1</td></tr></tbody></table>\n"
    );
}

#[test]
fn table_cell_count_mismatch_is_paragraph() {
    assert_eq!(html("|a|b|\n|-|"), "<p>|a|b| |-|</p>\n");
}

#[test]
fn delimiter_after_table_is_paragraph() {
    assert_eq!(
        html("|a|\n|-|\n||"),
        "<table><thead><th>a</th></thead><tbody></tbody></table>\n<p>||</p>\n"
    );
}

#[test]
fn links_and_images() {
    assert_eq!(html("[go](http://x)"), "<p><a href=\"http://x\">go</a></p>\n");
    assert_eq!(
        html("![a b!](p.png)"),
        "<p><img src=\"p.png\" alt=\"ab\" title=\"ab\"></p>\n"
    );
    assert_eq!(html("[*em*](u)"), "<p><a href=\"u\"><em>em</em></a></p>\n");
}

#[test]
fn link_target_keeps_less_than_escaped() {
    assert_eq!(html("[x](a<b&c)"), "<p><a href=\"a&lt;b&c\">x</a></p>\n");
}

#[test]
fn custom_tags() {
    assert_eq!(html("[[red]]"), "<span class=\"font_red\">\n");
    assert_eq!(html("[[/red]]"), "</span>\n");
    assert_eq!(html("[[ Center ]]"), "<div class=\"align_center\">\n");
    assert_eq!(html("a [[box]]b[[/box]]"), "<p>a <div class=\"box\">b</div></p>\n");
    assert_eq!(html("x[[blank]]y"), "<p>x&nbsp;y</p>\n");
    assert_eq!(html("[[nothing]]"), "<p>[[nothing]]</p>\n");
    assert_eq!(html("[[icon=star]]"), "<p>[[icon=star]]</p>\n");
}

#[test]
fn code_span_doubles_backslashes() {
    assert_eq!(html("`a\\b`"), "<p><code class=\"short\">a\\b</code></p>\n");
    assert_eq!(html("`open"), "<p>`open</p>\n");
}

#[test]
fn emphasis_variants() {
    assert_eq!(html("~_u_~"), "<p><u>u</u></p>\n");
    assert_eq!(html("x^2^ H~2~O"), "<p>x<sup>2</sup> H<sub>2</sub>O</p>\n");
    assert_eq!(html("**b** *i*"), "<p><strong>b</strong> <em>i</em></p>\n");
    assert_eq!(html("**b *i* b**"), "<p>**b <em>i</em> b**</p>\n");
    assert_eq!(html("****a"), "<p><strong></strong>**a</p>\n");
}

#[test]
fn blockquote_levels() {
    assert_eq!(
        html("> a\n>> b"),
        "<blockquote>a <blockquote>b </blockquote></blockquote>\n"
    );
}

#[test]
fn classifier_types() {
    let lines = code_to_lines(&units("# h\n---\n```\n|-|\n> q\n\n[[red]]\n- u\n1. o\np"));
    let types: Vec<LineType> = lines.iter().map(|l| l.line_type).collect();
    assert_eq!(
        types,
        vec![
            LineType::Header,
            LineType::ThematicBreak,
            LineType::CodeFence,
            LineType::TableDelimiter,
            LineType::Blockquote(1),
            LineType::Empty,
            LineType::Tag,
            LineType::UnorderedList,
            LineType::OrderedList,
            LineType::Paragraph,
        ]
    );
}

#[test]
fn indentation_width() {
    let line = Line::from_raw(&units(" \tx"));
    assert_eq!(line.indent, 5);
    assert_eq!(line.content, units("x"));
    assert_eq!(line.into_raw(), units("     x"));
    assert_eq!(get_type(&line), LineType::Paragraph);
}

#[test]
fn unit_helpers() {
    let v = units("##a#");
    assert_eq!(take_while(&v, 35), units("##"));
    assert_eq!(drop_while(&v, 35), units("a#"));
    assert_eq!(take_and_drop_while(&v, 35), (units("##"), units("a#")));
    assert_eq!(lowercase(65), 97);
    assert_eq!(lowercase(97), 97);
    assert_eq!(remove_special_characters(&units("a-B 9!")), units("aB9"));
}

#[test]
fn integer_parsing() {
    assert_eq!(parse_i32(&units("12")), Some(12));
    assert_eq!(parse_i32(&units("-2147483648")), Some(i32::MIN));
    assert_eq!(parse_i32(&units("+5")), Some(5));
    assert_eq!(parse_i32(&units("2147483648")), None);
    assert_eq!(parse_i32(&units("-")), None);
    assert_eq!(parse_i32(&units("1a")), None);
}

#[test]
fn top_level_render() {
    assert_eq!(markdown_html::render("*x*".to_string()), "<p><em>x</em></p>\n");
}

#[test]
fn highlighted_fence_is_styled() {
    let out = html("```rs\nfn main() {}\n```");
    assert!(out.starts_with("<pre><code><span style="));
    assert!(out.contains("main"));
    assert_ne!(out, "<pre><code>fn main() {}</code></pre>\n");
}

#[test]
fn unknown_language_is_left_plain() {
    assert_eq!(html("```nolang\nx\n```"), "<pre><code>x</code></pre>\n");
}

#[test]
fn blockquote_strips_one_space() {
    assert_eq!(html(">  a"), "<blockquote> a </blockquote>\n");
    assert_eq!(html("> a\nb"), "<blockquote>a b </blockquote>\n");
}

#[test]
fn empty_document() {
    assert_eq!(html(""), "\n");
    assert_eq!(html("\n"), "\n\n");
}

#[test]
fn non_ascii_text_round_trips() {
    assert_eq!(html("가나 😀 é"), "<p>가나 😀 é</p>\n");
    assert_eq!(html("# 한글 x!"), "<h1 id=\"한글x\">한글 x!</h1>\n");
}

#[test]
fn spaced_thematic_breaks() {
    assert_eq!(html("- - -"), "<hr />\n");
    assert_eq!(html("* * *"), "<hr />\n");
    assert_eq!(html("_ _  _"), "<hr />\n");
    assert_eq!(html("- * -"), "<ul><li>* -</li></ul>\n");
}

#[test]
fn bare_markers() {
    assert_eq!(html("- "), "<ul><li></li></ul>\n");
    assert_eq!(html("1. "), "<ol type=\"1\"><li></li></ol>\n");
    assert_eq!(html("> "), "<blockquote> </blockquote>\n");
}

#[test]
fn plain_fence_is_not_highlighted() {
    assert_eq!(html("```\nfn x() {}\n```"), "<pre><code>fn x() {}</code></pre>\n");
    assert_eq!(html("``` , \nab\n```"), "<pre><code>ab</code></pre>\n");
}

#[test]
fn plain_text_with_entities() {
    assert_eq!(html("x & \"y\" < 'z'"), "<p>x &amp; &quot;y&quot; &lt; &apos;z&apos;</p>\n");
}
