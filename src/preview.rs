//! Preview results: what is shown for an entry, and the status previews.
use vstd::prelude::*;
use crate::highlight::HighlightedLine;

verus! {

/// The content of a preview.
#[derive(Clone)]
pub enum PreviewContent {
    /// Sanitized display lines.
    PlainText(Vec<String>),
    /// Lines of styled fragments.
    HighlightedText(Vec<HighlightedLine>),
    /// The preview is being computed.
    Loading,
    /// No renderable preview exists.
    NotSupported,
    /// The file exceeds the size ceiling.
    TooLarge,
}

/// The variant of a preview's content, without its data.
#[derive(Debug, Clone, Copy, PartialEq, Eq, Structural)]
pub enum PreviewKind {
    PlainText,
    HighlightedText,
    Loading,
    NotSupported,
    TooLarge,
}

/// A preview of one entry: the title it is shown under and its content.
/// A preview is never changed once made; a newer one replaces it.
#[derive(Clone)]
pub struct Preview {
    pub title: String,
    pub content: PreviewContent,
}

impl PreviewContent {
    pub open spec fn spec_kind(&self) -> PreviewKind {
        match self {
            PreviewContent::PlainText(_) => PreviewKind::PlainText,
            PreviewContent::HighlightedText(_) => PreviewKind::HighlightedText,
            PreviewContent::Loading => PreviewKind::Loading,
            PreviewContent::NotSupported => PreviewKind::NotSupported,
            PreviewContent::TooLarge => PreviewKind::TooLarge,
        }
    }

    /// The variant of this content.
    pub fn kind(&self) -> (r: PreviewKind)
        ensures
            r == self.spec_kind(),
    {
        match self {
            PreviewContent::PlainText(_) => PreviewKind::PlainText,
            PreviewContent::HighlightedText(_) => PreviewKind::HighlightedText,
            PreviewContent::Loading => PreviewKind::Loading,
            PreviewContent::NotSupported => PreviewKind::NotSupported,
            PreviewContent::TooLarge => PreviewKind::TooLarge,
        }
    }
}

impl Preview {
    pub open spec fn spec_kind(&self) -> PreviewKind {
        self.content.spec_kind()
    }

    /// Makes a preview of `content` titled `title`.
    pub fn new(title: String, content: PreviewContent) -> (r: Preview)
        ensures
            r.title == title,
            r.content == content,
    {
        Preview { title, content }
    }

    /// The variant of this preview's content.
    pub fn kind(&self) -> (r: PreviewKind)
        ensures
            r == self.spec_kind(),
    {
        self.content.kind()
    }

    /// The number of lines of a text preview; zero for a status preview.
    pub fn line_count(&self) -> (r: usize)
        ensures
            r == match self.content {
                PreviewContent::PlainText(lines) => lines.len(),
                PreviewContent::HighlightedText(lines) => lines.len(),
                _ => 0,
            },
    {
        match &self.content {
            PreviewContent::PlainText(lines) => lines.len(),
            PreviewContent::HighlightedText(lines) => lines.len(),
            _ => 0,
        }
    }
}

/// The placeholder shown while the preview of `title` is computed.
pub fn loading(title: &String) -> (r: Preview)
    ensures
        r.title@ == title@,
        r.spec_kind() == PreviewKind::Loading,
{
    Preview::new(title.clone(), PreviewContent::Loading)
}

/// The preview of `title` when none can be rendered.
pub fn not_supported(title: &String) -> (r: Preview)
    ensures
        r.title@ == title@,
        r.spec_kind() == PreviewKind::NotSupported,
{
    Preview::new(title.clone(), PreviewContent::NotSupported)
}

/// The preview of `title` when the file exceeds the size ceiling.
pub fn file_too_large(title: &String) -> (r: Preview)
    ensures
        r.title@ == title@,
        r.spec_kind() == PreviewKind::TooLarge,
{
    Preview::new(title.clone(), PreviewContent::TooLarge)
}

} // verus!
