//! Syntax highlighting of preprocessed lines through syntect's grammar and
//! theme engine.
use vstd::prelude::*;
use syntect::easy::HighlightLines;
use syntect::highlighting::{Style, Theme, ThemeSet};
use syntect::parsing::{SyntaxReference, SyntaxSet};

verus! {

#[verifier::external_type_specification]
#[verifier::external_body]
pub struct ExSyntaxSet(SyntaxSet);

#[verifier::external_type_specification]
#[verifier::external_body]
pub struct ExSyntaxReference(SyntaxReference);

#[verifier::external_type_specification]
#[verifier::external_body]
pub struct ExTheme(Theme);

#[verifier::external_type_specification]
#[verifier::external_body]
pub struct ExStyle(Style);

#[verifier::external_type_specification]
#[verifier::external_body]
pub struct ExSyntectError(syntect::Error);

/// One highlighted line: its fragments of text, each with its style.
pub type HighlightedLine = Vec<(Style, String)>;

/// Why a file could not be highlighted.
#[derive(Debug, Clone, Copy, PartialEq, Eq, Structural)]
pub enum HighlightError {
    /// No grammar of the set matches the file's extension.
    NoSyntax,
    /// The grammar engine failed on a line.
    Tokenizer,
}

/// Whether the grammar set holds a grammar for files with this extension.
pub uninterp spec fn syntax_found(set: SyntaxSet, extension: Seq<char>) -> bool;

/// Whether highlighting these lines in order, with the grammar that the
/// extension selects from the set and with the theme, raises no error.
pub uninterp spec fn highlight_ok(
    set: SyntaxSet,
    theme: Theme,
    extension: Seq<char>,
    lines: Seq<Seq<char>>,
) -> bool;

/// The lines of `lines` as character sequences.
pub open spec fn line_views(lines: Seq<String>) -> Seq<Seq<char>> {
    lines.map_values(|l: String| l@)
}

/// Relies on `SyntaxSet::find_syntax_by_extension`: the last grammar of the
/// set whose extensions hold `extension`, ignoring ASCII case, if any.
#[verifier::external_body]
fn find_syntax_by_extension<'a>(set: &'a SyntaxSet, extension: &str) -> (r: Option<
    &'a SyntaxReference,
>)
    ensures
        r is Some == syntax_found(*set, extension@),
{
    set.find_syntax_by_extension(extension)
}

/// Relies on syntect's line highlighting: `SyntaxSet::find_syntax_by_extension`
/// picks the grammar, `HighlightLines::new` starts at the top of the file, and
/// `HighlightLines::highlight_line` styles each line in turn, stopping at the
/// first error. `None` when no grammar matches.
#[verifier::external_body]
fn highlight_with_syntect(
    set: &SyntaxSet,
    theme: &Theme,
    extension: &str,
    lines: &Vec<String>,
) -> (r: Option<Result<Vec<HighlightedLine>, syntect::Error>>)
    ensures
        r is Some == syntax_found(*set, extension@),
        r is Some ==> (r->Some_0 is Ok == highlight_ok(
            *set,
            *theme,
            extension@,
            line_views(lines@),
        )),
        r is Some && r->Some_0 is Ok ==> r->Some_0->Ok_0.len() == lines.len(),
{
    set.find_syntax_by_extension(extension).map(|syntax| {
        let mut highlighter = HighlightLines::new(syntax, theme);
        lines.iter().map(|line| {
            highlighter.highlight_line(line, set).map(
                |fragments| fragments.into_iter().map(|(style, text)| (style, text.to_string())).collect(),
            )
        }).collect()
    })
}

/// Highlights `lines`, in order, with the grammar that `extension` selects
/// from `set` and with `theme`: one highlighted line for each line given;
/// `NoSyntax` when no grammar matches the extension, `Tokenizer` when the
/// engine fails on a line.
pub fn highlight_lines(
    set: &SyntaxSet,
    theme: &Theme,
    extension: &str,
    lines: &Vec<String>,
) -> (r: Result<Vec<HighlightedLine>, HighlightError>)
    ensures
        (r is Err && r->Err_0 == HighlightError::NoSyntax) == !syntax_found(*set, extension@),
        r is Ok == (syntax_found(*set, extension@) && highlight_ok(
            *set,
            *theme,
            extension@,
            line_views(lines@),
        )),
        r is Ok ==> r->Ok_0.len() == lines.len(),
{
    match highlight_with_syntect(set, theme, extension, lines) {
        None => Err(HighlightError::NoSyntax),
        Some(Ok(highlighted)) => Ok(highlighted),
        Some(Err(_)) => Err(HighlightError::Tokenizer),
    }
}

/// True when `set` holds a grammar for files with extension `extension`:
/// such files are taken for text.
pub fn is_known_text_extension(set: &SyntaxSet, extension: &str) -> (r: bool)
    ensures
        r == syntax_found(*set, extension@),
{
    find_syntax_by_extension(set, extension).is_some()
}

/// Relies on `SyntaxSet::load_defaults_newlines`: syntect's bundled grammars,
/// for lines that keep their line feed.
#[verifier::external_body]
pub(crate) fn load_default_syntaxes() -> (r: SyntaxSet) {
    SyntaxSet::load_defaults_newlines()
}

/// Relies on `ThemeSet::load_defaults`: syntect's bundled theme named `name`,
/// if there is one.
#[verifier::external_body]
pub(crate) fn load_bundled_theme(name: &str) -> (r: Option<Theme>) {
    ThemeSet::load_defaults().themes.remove(name)
}

/// Relies on `Theme::default`: a theme with no rules.
#[verifier::external_body]
pub(crate) fn plain_theme() -> (r: Theme) {
    Theme::default()
}

} // verus!
