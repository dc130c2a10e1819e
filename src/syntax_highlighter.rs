//! The syntax highlighter that fenced code with a language goes through.
use vstd::prelude::*;
use crate::escape::{undo_html_escapes, unescaped};
use crate::line::{spaces, Line, LineType, LineView, views};
use crate::units::NEWLINE;
use crate::utils::{copy_range, option_units, piece_views, split, split_units};
use syntect::easy::HighlightLines;
use syntect::highlighting::{Theme, ThemeSet};
use syntect::html::{append_highlighted_html_for_styled_line, IncludeBackground};
use syntect::parsing::SyntaxSet;

verus! {

#[verifier::external_type_specification]
#[verifier::external_body]
pub struct ExSyntaxSet(SyntaxSet);

#[verifier::external_type_specification]
#[verifier::external_body]
pub struct ExTheme(Theme);

/// The HTML that syntect makes of `source` (one line per element, each
/// ending in a newline) in the grammar that `token` names, with the bundled
/// definitions and theme; `None` where no grammar answers to the token.
pub uninterp spec fn highlighted(source: Seq<Seq<u16>>, token: Seq<char>) -> Option<Seq<u16>>;

/// Holds syntect's bundled syntax definitions and one of its bundled themes;
/// it is only made by `new`, so what it produces depends on its input alone.
pub struct SyntaxHighlighter {
    syntaxes: SyntaxSet,
    theme: Theme,
}

/// Relies on syntect's `SyntaxSet::load_defaults_nonewlines`: the bundled
/// syntax definitions.
#[verifier::external_body]
fn bundled_syntaxes() -> SyntaxSet {
    SyntaxSet::load_defaults_nonewlines()
}

/// Relies on syntect's `ThemeSet::load_defaults`: the bundled theme called
/// `name`, or the default theme where none is.
#[verifier::external_body]
fn bundled_theme(name: &str) -> Theme {
    ThemeSet::load_defaults().themes.remove(name).unwrap_or_default()
}

impl SyntaxHighlighter {
    /// A highlighter with the bundled definitions and the
    /// `base16-eighties.dark` theme.
    pub fn new() -> SyntaxHighlighter {
        SyntaxHighlighter { syntaxes: bundled_syntaxes(), theme: bundled_theme("base16-eighties.dark") }
    }

    /// Relies on syntect's `SyntaxSet::find_syntax_by_token` to pick the
    /// grammar, `HighlightLines::highlight_line` to style each line and
    /// `append_highlighted_html_for_styled_line` to write it as HTML: the
    /// output is a function of the lines and the token.
    #[verifier::external_body]
    fn highlight_source(&self, source: &Vec<Vec<u16>>, token: &str) -> (r: Option<Vec<u16>>)
        ensures
            option_units(r) == highlighted(piece_views(source@), token@),
    {
        let syntax = self.syntaxes.find_syntax_by_token(token)?;
        let mut lines = HighlightLines::new(syntax, &self.theme);
        let mut output = String::new();
        for unit_line in source.iter() {
            let text = String::from_utf16_lossy(unit_line);
            let styled = lines.highlight_line(&text, &self.syntaxes).ok()?;
            append_highlighted_html_for_styled_line(&styled[..], IncludeBackground::No, &mut output).ok()?;
        }
        Some(output.encode_utf16().collect())
    }
}

/// A line with its indentation put back as spaces.
pub open spec fn raw_of(l: LineView) -> Seq<u16> {
    spaces(l.indent) + l.content
}

/// The source text of each line, entities decoded, newline-terminated.
pub open spec fn source_lines(ls: Seq<LineView>) -> Seq<Seq<u16>> {
    ls.map_values(|l: LineView| unescaped(raw_of(l)).push(NEWLINE))
}

/// What highlighting makes of `ls`: the highlighted HTML cut into paragraph
/// lines, or `None` where the token names no grammar.
pub open spec fn highlighted_lines(ls: Seq<LineView>, token: Seq<char>) -> Option<Seq<LineView>> {
    match highlighted(source_lines(ls), token) {
        Some(out) => Some(
            split(out, NEWLINE).map_values(
                |p: Seq<u16>| LineView { content: p, indent: 0, line_type: LineType::Paragraph },
            ),
        ),
        None => None,
    }
}

/// `ls` highlighted, or `ls` itself where the token names no grammar.
pub open spec fn highlighted_or_kept(ls: Seq<LineView>, token: Seq<char>) -> Seq<LineView> {
    match highlighted_lines(ls, token) {
        Some(h) => h,
        None => ls,
    }
}

impl SyntaxHighlighter {
    /// Highlights fenced code lines in the language that `syntax` names; the
    /// lines stay as they are where it names none.
    pub fn highlight_syntax(&self, lines: Vec<Line>, syntax: &str) -> (r: Vec<Line>)
        ensures
            views(r@) == highlighted_or_kept(views(lines@), syntax@),
    {
        match self.highlight_lines(&lines, syntax) {
            Some(h) => h,
            None => lines,
        }
    }

    /// Highlights fenced code lines in the language that `syntax` names, if
    /// it names one.
    pub fn highlight_lines(&self, lines: &Vec<Line>, syntax: &str) -> (r: Option<Vec<Line>>)
        ensures
            match r {
                Some(h) => highlighted_lines(views(lines@), syntax@) == Some(views(h@)),
                None => highlighted_lines(views(lines@), syntax@) is None,
            },
    {
        let ghost ls = views(lines@);
        let mut source: Vec<Vec<u16>> = Vec::new();
        let mut i: usize = 0;
        while i < lines.len()
            invariant
                ls == views(lines@),
                i <= lines@.len(),
                piece_views(source@) == source_lines(ls.subrange(0, i as int)),
            decreases lines@.len() - i,
        {
            let mut raw = undo_html_escapes(&lines[i].into_raw());
            raw.push(NEWLINE);
            let ghost s0 = piece_views(source@);
            let ghost rv = raw@;
            source.push(raw);
            proof {
                assert(ls[i as int] == lines@[i as int]@);
                assert(rv == unescaped(raw_of(ls[i as int])).push(NEWLINE));
                assert(piece_views(source@) =~= s0.push(rv));
                assert(source_lines(ls.subrange(0, i + 1)) =~= source_lines(ls.subrange(0, i as int)).push(rv));
            }
            i += 1;
        }
        proof {
            assert(ls.subrange(0, ls.len() as int) =~= ls);
        }
        match self.highlight_source(&source, syntax) {
            None => None,
            Some(output) => {
                let pieces = split_units(&output, NEWLINE);
                let ghost ps = piece_views(pieces@);
                let mut r: Vec<Line> = Vec::new();
                let mut k: usize = 0;
                while k < pieces.len()
                    invariant
                        ps == piece_views(pieces@),
                        k <= pieces@.len(),
                        views(r@) == ps.subrange(0, k as int).map_values(
                            |p: Seq<u16>| LineView { content: p, indent: 0, line_type: LineType::Paragraph },
                        ),
                    decreases pieces@.len() - k,
                {
                    let content = copy_range(&pieces[k], 0, pieces[k].len());
                    proof {
                        assert(pieces@[k as int]@.subrange(0, pieces@[k as int]@.len() as int) =~= ps[k as int]);
                    }
                    let ghost r0 = views(r@);
                    let ghost cv = content@;
                    r.push(Line { content, indent: 0, line_type: LineType::Paragraph });
                    proof {
                        assert(views(r@) =~= r0.push(LineView { content: cv, indent: 0, line_type: LineType::Paragraph }));
                        assert(views(r@) =~= ps.subrange(0, k + 1).map_values(
                            |p: Seq<u16>| LineView { content: p, indent: 0, line_type: LineType::Paragraph },
                        ));
                    }
                    k += 1;
                }
                proof {
                    assert(ps.subrange(0, ps.len() as int) =~= ps);
                }
                Some(r)
            },
        }
    }
}

} // verus!
