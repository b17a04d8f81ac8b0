//! The file previewer: deciding how a file is shown, and the preview cache
//! that remembers each decision.
use vstd::prelude::*;
use crate::cache::PreviewCache;
use crate::highlight::{
    highlight_lines, line_views, load_bundled_theme, load_default_syntaxes, plain_theme,
    syntax_found, highlight_ok, HighlightError, HighlightedLine,
};
use std::sync::Arc;
use crate::preview::{file_too_large, loading, not_supported, Preview, PreviewContent, PreviewKind};
use crate::strings::{
    above_printable_threshold, bytes_of, is_mostly_printable_ascii, preprocess_line, preprocessed,
    printable_count,
};
use syntect::highlighting::Theme;
use syntect::parsing::SyntaxSet;
use vstd::string::*;
use vstd::utf8::encode_utf8;

verus! {

/* Classification */

/// How the contents of a file are treated.
#[derive(Debug, Clone, Copy, PartialEq, Eq, Structural)]
pub enum FileType {
    Text,
    Image,
    Other,
    Unknown,
}

/// The number of bytes sampled to measure the printable ratio of a file.
pub const SAMPLE_SIZE: usize = 256;

/// True when `needle` occurs in `hay` as a contiguous run.
pub open spec fn contains_run(hay: Seq<u8>, needle: Seq<u8>) -> bool {
    exists|i: int|
        0 <= i && i + needle.len() <= hay.len() && #[trigger] hay.subrange(i, i + needle.len())
            == needle
}

/// The bytes of `image`.
pub open spec fn image_word() -> Seq<u8> {
    seq![105u8, 109u8, 97u8, 103u8, 101u8]
}

/// The bytes of `text`.
pub open spec fn text_word() -> Seq<u8> {
    seq![116u8, 101u8, 120u8, 116u8]
}

/// The file type that a sniffed MIME type shows.
pub open spec fn file_type_of_mime(mime: Seq<u8>) -> FileType {
    if contains_run(mime, image_word()) {
        FileType::Image
    } else if contains_run(mime, text_word()) {
        FileType::Text
    } else {
        FileType::Other
    }
}

/// The file type from what is known of a file: the MIME type sniffed from
/// its first bytes, whether its extension is a known text one, and a sample
/// of its first bytes.
pub open spec fn file_type_of(mime: Option<Seq<u8>>, known_text_extension: bool, sample: Seq<u8>) -> FileType {
    match mime {
        Some(m) => file_type_of_mime(m),
        None => if known_text_extension || above_printable_threshold(
            printable_count(sample),
            sample.len(),
        ) {
            FileType::Text
        } else {
            FileType::Unknown
        },
    }
}

fn contains_bytes(hay: &[u8], needle: &Vec<u8>) -> (r: bool)
    ensures
        r == contains_run(hay@, needle@),
{
    let h = hay.len();
    let n = needle.len();
    if n > h {
        return false;
    }
    let mut i: usize = 0;
    while i <= h - n
        invariant
            n <= h,
            h == hay@.len(),
            n == needle@.len(),
            forall|k: int| 0 <= k < i ==> #[trigger] hay@.subrange(k, k + n) != needle@,
        decreases h - n + 1 - i,
    {
        let mut j: usize = 0;
        while j < n && hay[i + j] == needle[j]
            invariant
                j <= n,
                i + n <= h,
                h == hay@.len(),
                n == needle@.len(),
                forall|t: int| 0 <= t < j ==> hay@[i + t] == needle@[t],
            decreases n - j,
        {
            j += 1;
        }
        if j == n {
            assert(hay@.subrange(i as int, i + n) =~= needle@);
            return true;
        }
        assert(hay@.subrange(i as int, i + n)[j as int] != needle@[j as int]);
        i += 1;
    }
    assert forall|k: int| 0 <= k && k + n <= h implies #[trigger] hay@.subrange(k, k + n)
        != needle@ by {
        assert(k < i);
    }
    false
}

/// Classifies a file from its sniffed MIME type, whether its extension is a
/// known text one, and a sample of its first bytes: an image or text MIME
/// type decides; without one, a known text extension or a sample that is
/// mostly printable ASCII makes it text.
pub fn classify(mime: Option<&str>, known_text_extension: bool, sample: &[u8]) -> (r: FileType)
    ensures
        r == file_type_of(
            match mime {
                Some(m) => Some(bytes_of(m)),
                None => None,
            },
            known_text_extension,
            sample@,
        ),
{
    match mime {
        Some(m) => {
            let b = m.as_bytes();
            if contains_bytes(b, &vec![105u8, 109u8, 97u8, 103u8, 101u8]) {
                FileType::Image
            } else if contains_bytes(b, &vec![116u8, 101u8, 120u8, 116u8]) {
                FileType::Text
            } else {
                FileType::Other
            }
        },
        None => {
            if known_text_extension || is_mostly_printable_ascii(sample) {
                FileType::Text
            } else {
                FileType::Unknown
            }
        },
    }
}

/// The MIME type that infer recognises from the magic bytes of `buf`.
pub uninterp spec fn sniffed_mime_type(buf: Seq<u8>) -> Option<Seq<char>>;

/// Relies on `infer::get` and `infer::Type::mime_type`: the MIME type of the
/// first matcher that recognises `buf`, which depends on `buf` alone.
#[verifier::external_body]
fn sniff_mime_type(buf: &[u8]) -> (r: Option<String>)
    ensures
        r is Some == sniffed_mime_type(buf@) is Some,
        r is Some ==> r->Some_0@ == sniffed_mime_type(buf@)->Some_0,
{
    infer::get(buf).map(|t| t.mime_type().to_string())
}

/// The sample of `head` measured for its printable ratio.
pub open spec fn sample_of(head: Seq<u8>) -> Seq<u8> {
    if head.len() > SAMPLE_SIZE {
        head.subrange(0, SAMPLE_SIZE as int)
    } else {
        head
    }
}

/// Determines the file type of a file whose first bytes are `head`: by its
/// sniffed MIME type, else its extension, else the printable ratio of its
/// first `SAMPLE_SIZE` bytes.
pub fn get_file_type(head: &[u8], known_text_extension: bool) -> (r: FileType)
    ensures
        r == file_type_of(
            match sniffed_mime_type(head@) {
                Some(m) => Some(encode_utf8(m)),
                None => None,
            },
            known_text_extension,
            sample_of(head@),
        ),
{
    let mime = sniff_mime_type(head);
    let len = head.len();
    let sample = vstd::slice::slice_subrange(head, 0, if len > SAMPLE_SIZE { SAMPLE_SIZE } else { len });
    assert(sample@ =~= sample_of(head@));
    match mime {
        Some(m) => classify(Some(m.as_str()), known_text_extension, sample),
        None => classify(None, known_text_extension, sample),
    }
}

/* The previewer */

/// Settings of a file previewer: the name of its color theme.
#[derive(Debug, Clone, Default)]
pub struct FilePreviewerConfig {
    pub theme: String,
}

impl FilePreviewerConfig {
    /// Settings that use the theme named `theme`.
    pub fn new(theme: String) -> (r: Self)
        ensures
            r.theme == theme,
    {
        FilePreviewerConfig { theme }
    }
}

/// The largest file, in bytes, that is previewed: 4 MiB.
pub const MAX_FILE_SIZE: u64 = 4194304;

/// What was learned of a file on a cache miss, in the order it is learned:
/// its size (when the query succeeded), its type, and whether it could be
/// opened for reading. A later fact is not looked at when an earlier one
/// decides.
#[derive(Debug, Clone, Copy, PartialEq, Eq, Structural)]
pub struct FileFacts {
    pub size: Option<u64>,
    pub file_type: FileType,
    pub opened: bool,
}

/// The preview stored for a file on a cache miss.
pub open spec fn decided_kind(facts: FileFacts) -> PreviewKind {
    if facts.size is Some && facts.size->Some_0 > MAX_FILE_SIZE {
        PreviewKind::TooLarge
    } else if facts.file_type == FileType::Text && facts.opened {
        PreviewKind::Loading
    } else {
        PreviewKind::NotSupported
    }
}

/// What a request for a preview did.
#[derive(Debug, Clone, Copy, PartialEq, Eq, Structural)]
pub enum PreviewDecision {
    /// A preview was already stored for the entry; nothing changed.
    Cached,
    /// A new preview of this kind was stored. `Loading` means that the
    /// highlighted preview is now to be computed in the background.
    Stored(PreviewKind),
}

impl PreviewDecision {
    /// True when the caller is to start the background computation.
    pub open spec fn spec_starts_computation(&self) -> bool {
        *self == PreviewDecision::Stored(PreviewKind::Loading)
    }

    /// True when the caller is to start the background computation.
    pub fn starts_computation(&self) -> (r: bool)
        ensures
            r == self.spec_starts_computation(),
    {
        match self {
            PreviewDecision::Stored(PreviewKind::Loading) => true,
            _ => false,
        }
    }
}

/// One request for the preview of `name`, from the previews stored before
/// to those stored after, with what it decided.
pub open spec fn preview_step(
    before: Map<Seq<char>, Preview>,
    name: Seq<char>,
    facts: FileFacts,
    after: Map<Seq<char>, Preview>,
    decision: PreviewDecision,
) -> bool {
    if before.contains_key(name) {
        decision == PreviewDecision::Cached && after == before
    } else {
        &&& decision == PreviewDecision::Stored(decided_kind(facts))
        &&& after.dom() == before.dom().insert(name)
        &&& after.remove(name) == before
        &&& after[name].title@ == name
        &&& after[name].spec_kind() == decided_kind(facts)
    }
}

/// The theme used when none is configured.
pub const DEFAULT_THEME: &'static str = "base16-ocean.dark";

/// Decides and remembers the previews of files, and holds the grammars and
/// theme that their highlighting uses.
pub struct FilePreviewer {
    cache: PreviewCache,
    syntax_set: Arc<SyntaxSet>,
    syntax_theme: Arc<Theme>,
    theme_name: String,
}

impl FilePreviewer {
    /// The previews stored, by entry name.
    pub closed spec fn previews(&self) -> Map<Seq<char>, Preview> {
        self.cache.view()
    }

    /// The name of the theme asked for.
    pub closed spec fn spec_theme_name(&self) -> Seq<char> {
        self.theme_name@
    }

    /// The grammars used for highlighting.
    pub closed spec fn spec_syntax_set(&self) -> Arc<SyntaxSet> {
        self.syntax_set
    }

    /// The theme used for highlighting.
    pub closed spec fn spec_syntax_theme(&self) -> Arc<Theme> {
        self.syntax_theme
    }

    pub closed spec fn wf(&self) -> bool {
        self.cache.wf()
    }

    /// A previewer with no stored preview, syntect's bundled grammars, and
    /// the bundled theme that `config` names, `DEFAULT_THEME` without one.
    /// A name that the bundled themes lack falls back to `DEFAULT_THEME`,
    /// and failing that to a theme with no rules.
    pub fn new(config: Option<FilePreviewerConfig>) -> (r: Self)
        ensures
            r.wf(),
            r.previews() == Map::<Seq<char>, Preview>::empty(),
            r.spec_theme_name() == (match config {
                Some(c) => c.theme@,
                None => DEFAULT_THEME@,
            }),
    {
        let theme_name = match config {
            Some(c) => c.theme,
            None => DEFAULT_THEME.to_owned(),
        };
        let theme = match load_bundled_theme(theme_name.as_str()) {
            Some(t) => t,
            None => match load_bundled_theme(DEFAULT_THEME) {
                Some(t) => t,
                None => plain_theme(),
            },
        };
        FilePreviewer {
            cache: PreviewCache::new(),
            syntax_set: Arc::new(load_default_syntaxes()),
            syntax_theme: Arc::new(theme),
            theme_name,
        }
    }

    /// The name of the theme asked for.
    pub fn theme_name(&self) -> (r: &String)
        ensures
            r@ == self.spec_theme_name(),
    {
        &self.theme_name
    }

    /// The grammars used for highlighting.
    pub fn syntax_set(&self) -> (r: &Arc<SyntaxSet>)
        ensures
            *r == self.spec_syntax_set(),
    {
        &self.syntax_set
    }

    /// The theme used for highlighting.
    pub fn syntax_theme(&self) -> (r: &Arc<Theme>)
        ensures
            *r == self.spec_syntax_theme(),
    {
        &self.syntax_theme
    }

    /// The preview stored for `name`, if any.
    pub fn cached(&self, name: &String) -> (r: Option<&Preview>)
        requires
            self.wf(),
        ensures
            r == (if self.previews().contains_key(name@) {
                Some(&self.previews()[name@])
            } else {
                None::<&Preview>
            }),
    {
        self.cache.get(name)
    }

    /// Stores `preview` for `key`, replacing what was stored for it.
    pub fn cache_preview(&mut self, key: String, preview: Preview)
        requires
            old(self).wf(),
        ensures
            final(self).wf(),
            final(self).spec_syntax_set() == old(self).spec_syntax_set(),
            final(self).spec_syntax_theme() == old(self).spec_syntax_theme(),
            final(self).spec_theme_name() == old(self).spec_theme_name(),
            final(self).previews() == old(self).previews().insert(key@, preview),
    {
        self.cache.insert(key, preview);
    }

    /// Handles a request for the preview of `name` on what is known of its
    /// file. When a preview is already stored, it stands. Otherwise the file
    /// is too large past `MAX_FILE_SIZE`; a text file that could be opened
    /// gets the loading placeholder, and its highlighted preview is to be
    /// computed; anything else is not supported. The lookup and the store
    /// are one step, so a second request for the same name never starts a
    /// second computation.
    pub fn decide(&mut self, name: &String, facts: FileFacts) -> (r: PreviewDecision)
        requires
            old(self).wf(),
        ensures
            final(self).wf(),
            final(self).spec_syntax_set() == old(self).spec_syntax_set(),
            final(self).spec_syntax_theme() == old(self).spec_syntax_theme(),
            final(self).spec_theme_name() == old(self).spec_theme_name(),
            preview_step(old(self).previews(), name@, facts, final(self).previews(), r),
    {
        if self.cache.get(name).is_some() {
            return PreviewDecision::Cached;
        }
        let too_large = match facts.size {
            Some(s) => s > MAX_FILE_SIZE,
            None => false,
        };
        let preview = if too_large {
            file_too_large(name)
        } else if facts.file_type == FileType::Text && facts.opened {
            loading(name)
        } else {
            not_supported(name)
        };
        let kind = preview.kind();
        self.cache.insert(name.clone(), preview);
        proof {
            let before = old(self).previews();
            let after = self.previews();
            assert(after.dom() =~= before.dom().insert(name@));
            assert(after.remove(name@) =~= before);
        }
        PreviewDecision::Stored(kind)
    }
}

/// The lines handed to the highlighter: each line preprocessed, with the
/// line feed that the grammars expect at its end.
pub open spec fn prepared_line(raw: Seq<char>) -> Seq<char> {
    preprocessed(encode_utf8(raw)) + seq!['\n']
}

/// Preprocesses each of `raw` and ends it with a line feed.
pub fn prepare_lines(raw: &Vec<String>) -> (r: Vec<String>)
    ensures
        r.len() == raw.len(),
        forall|i: int| 0 <= i < raw.len() ==> (#[trigger] r[i])@ == prepared_line(raw[i]@),
{
    let mut out: Vec<String> = Vec::new();
    let mut i: usize = 0;
    while i < raw.len()
        invariant
            i <= raw.len(),
            out.len() == i,
            forall|k: int| 0 <= k < i ==> (#[trigger] out[k])@ == prepared_line(raw[k]@),
        decreases raw.len() - i,
    {
        let mut line = preprocess_line(raw[i].as_str());
        proof {
            reveal_strlit("\n");
        }
        line.append("\n");
        out.push(line);
        i += 1;
    }
    out
}

/// The preview of `name` from the outcome of highlighting it: its
/// highlighted lines, or not supported on an error.
pub fn highlighted_preview(name: &String, outcome: Result<Vec<HighlightedLine>, HighlightError>) -> (r: Preview)
    ensures
        r.title@ == name@,
        outcome is Ok ==> r.content == PreviewContent::HighlightedText(outcome->Ok_0),
        outcome is Err ==> r.spec_kind() == PreviewKind::NotSupported,
{
    match outcome {
        Ok(lines) => Preview::new(name.clone(), PreviewContent::HighlightedText(lines)),
        Err(_) => not_supported(name),
    }
}

/// True when some line of `lines` could not be read.
pub open spec fn read_failed(lines: Seq<Option<String>>) -> bool {
    exists|i: int| 0 <= i < lines.len() && #[trigger] lines[i] is None
}

/// The prepared lines of a file whose every line was read.
pub open spec fn prepared_lines(lines: Seq<Option<String>>) -> Seq<Seq<char>> {
    lines.map_values(|l: Option<String>| prepared_line(l->Some_0@))
}

/// The lines read, when every one of them was read.
pub fn lines_read(lines: &Vec<Option<String>>) -> (r: Option<Vec<String>>)
    ensures
        r is None == read_failed(lines@),
        r is Some ==> r->Some_0.len() == lines.len() && forall|i: int|
            0 <= i < lines.len() ==> (#[trigger] r->Some_0[i])@ == lines[i]->Some_0@,
{
    let mut out: Vec<String> = Vec::new();
    let mut i: usize = 0;
    while i < lines.len()
        invariant
            i <= lines.len(),
            out.len() == i,
            forall|k: int| 0 <= k < i ==> #[trigger] lines[k] is Some,
            forall|k: int| 0 <= k < i ==> (#[trigger] out[k])@ == lines[k]->Some_0@,
        decreases lines.len() - i,
    {
        match &lines[i] {
            Some(line) => out.push(line.clone()),
            None => {
                return None;
            },
        }
        i += 1;
    }
    Some(out)
}

/// Computes the highlighted preview of the file `name` from the outcome of
/// reading each of its lines, `None` where a read failed, and from its
/// extension: not supported when a read failed; otherwise each line is
/// prepared and the whole highlighted with `set` and `theme`, giving one
/// highlighted line for each line of the file, or not supported when no
/// grammar matches or the engine fails.
pub fn compute_highlighted_text_preview(
    name: &String,
    raw_lines: &Vec<Option<String>>,
    extension: &str,
    set: &SyntaxSet,
    theme: &Theme,
) -> (r: Preview)
    ensures
        r.title@ == name@,
        r.spec_kind() == PreviewKind::HighlightedText || r.spec_kind() == PreviewKind::NotSupported,
        (r.spec_kind() == PreviewKind::HighlightedText) == (!read_failed(raw_lines@) && syntax_found(
            *set,
            extension@,
        ) && highlight_ok(*set, *theme, extension@, prepared_lines(raw_lines@))),
        r.spec_kind() == PreviewKind::HighlightedText ==> r.content->HighlightedText_0.len()
            == raw_lines.len(),
{
    let read = match lines_read(raw_lines) {
        Some(read) => read,
        None => {
            return not_supported(name);
        },
    };
    let lines = prepare_lines(&read);
    assert(line_views(lines@) =~= prepared_lines(raw_lines@));
    highlighted_preview(name, highlight_lines(set, theme, extension, &lines))
}

/// The most lines kept in a plain text preview.
pub const TEMP_PLAIN_TEXT_PREVIEW_HEIGHT: usize = 200;

/// A plain text preview titled `title` of the lines read from a file, each
/// `None` where reading failed: the first `TEMP_PLAIN_TEXT_PREVIEW_HEIGHT`
/// lines, preprocessed; not supported when a read fails before that.
pub fn plain_text_preview(title: &String, lines: &Vec<Option<String>>) -> (r: Preview)
    ensures
        r.title@ == title@,
        ({
            let n = if lines.len() < TEMP_PLAIN_TEXT_PREVIEW_HEIGHT { lines.len() as int } else { TEMP_PLAIN_TEXT_PREVIEW_HEIGHT as int };
            if exists|i: int| 0 <= i < n && #[trigger] lines[i] is None {
                r.spec_kind() == PreviewKind::NotSupported
            } else {
                &&& r.content is PlainText
                &&& r.content->PlainText_0.len() == n
                &&& forall|i: int| 0 <= i < n ==> (#[trigger] r.content->PlainText_0[i])@ == preprocessed(encode_utf8(lines[i]->Some_0@))
            }
        }),
{
    let mut out: Vec<String> = Vec::new();
    let mut i: usize = 0;
    while i < lines.len() && out.len() < TEMP_PLAIN_TEXT_PREVIEW_HEIGHT
        invariant
            i <= lines.len(),
            out.len() == i,
            i <= TEMP_PLAIN_TEXT_PREVIEW_HEIGHT,
            forall|k: int| 0 <= k < i ==> #[trigger] lines[k] is Some,
            forall|k: int| 0 <= k < i ==> (#[trigger] out[k])@ == preprocessed(encode_utf8(lines[k]->Some_0@)),
        decreases lines.len() - i,
    {
        match &lines[i] {
            Some(line) => out.push(preprocess_line(line.as_str())),
            None => {
                return not_supported(title);
            },
        }
        i += 1;
    }
    Preview::new(title.clone(), PreviewContent::PlainText(out))
}

/* Properties */

/// After a preview is stored for a name, it is the one found for that name
/// until another is stored for the same name; storing for other names
/// leaves it in place.
pub proof fn lemma_stored_preview_is_found(
    previews: Map<Seq<char>, Preview>,
    name: Seq<char>,
    preview: Preview,
    other: Seq<char>,
    other_preview: Preview,
    replacement: Preview,
)
    requires
        other != name,
    ensures
        previews.insert(name, preview).contains_key(name),
        previews.insert(name, preview)[name] == preview,
        previews.insert(name, preview).insert(other, other_preview)[name] == preview,
        previews.insert(name, preview).insert(name, replacement)[name] == replacement,
{
}

/// Two requests in a row for the preview of the same name start at most one
/// computation: the second finds what the first stored and changes nothing.
/// For a name not yet stored whose file is text, opened and within the size
/// ceiling, exactly one is started.
pub proof fn lemma_requests_start_one_computation(
    before: Map<Seq<char>, Preview>,
    name: Seq<char>,
    first_facts: FileFacts,
    middle: Map<Seq<char>, Preview>,
    first: PreviewDecision,
    second_facts: FileFacts,
    after: Map<Seq<char>, Preview>,
    second: PreviewDecision,
)
    requires
        preview_step(before, name, first_facts, middle, first),
        preview_step(middle, name, second_facts, after, second),
    ensures
        second == PreviewDecision::Cached,
        after == middle,
        !second.spec_starts_computation(),
        !before.contains_key(name) && decided_kind(first_facts) == PreviewKind::Loading
            ==> first.spec_starts_computation(),
{
    if !before.contains_key(name) {
        assert(middle.dom().contains(name));
    }
}

} // verus!
