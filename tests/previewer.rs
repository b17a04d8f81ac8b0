use syntect::highlighting::ThemeSet;
use syntect::parsing::SyntaxSet;
use television_preview::action::Action;
use television_preview::cache::PreviewCache;
use television_preview::config::{UiConfig, DEFAULT_UI_SCALE};
use television_preview::files::{
    classify, compute_highlighted_text_preview, get_file_type, highlighted_preview, lines_read,
    plain_text_preview, prepare_lines, FileFacts, FilePreviewer, FilePreviewerConfig, FileType,
    PreviewDecision, MAX_FILE_SIZE,
};
use television_preview::highlight::{highlight_lines, is_known_text_extension, HighlightError};
use television_preview::preview::{loading, not_supported, Preview, PreviewContent, PreviewKind};
use television_preview::results::match_segments;

fn theme() -> syntect::highlighting::Theme {
    ThemeSet::load_defaults().themes["base16-ocean.dark"].clone()
}

#[test]
fn small_text_file_loads_then_shows_highlighted_text() {
    let name = String::from("notes.txt");
    let head = b"Hello!!!!\n";
    assert_eq!(head.len(), 10);
    let file_type = get_file_type(head, false);
    assert_eq!(file_type, FileType::Text);
    let mut previewer = FilePreviewer::new(None);
    assert!(previewer.cached(&name).is_none());
    let facts = FileFacts { size: Some(10), file_type, opened: true };
    let decision = previewer.decide(&name, facts);
    assert_eq!(decision, PreviewDecision::Stored(PreviewKind::Loading));
    assert!(decision.starts_computation());
    assert_eq!(previewer.cached(&name).unwrap().kind(), PreviewKind::Loading);

    let lines = vec![Some(String::from("Hello!!!!"))];
    let preview = compute_highlighted_text_preview(
        &name,
        &lines,
        "txt",
        previewer.syntax_set(),
        previewer.syntax_theme(),
    );
    assert_eq!(preview.kind(), PreviewKind::HighlightedText);
    previewer.cache_preview(name.clone(), preview);

    assert_eq!(previewer.decide(&name, facts), PreviewDecision::Cached);
    let shown = previewer.cached(&name).unwrap();
    assert_eq!(shown.kind(), PreviewKind::HighlightedText);
    assert_eq!(shown.line_count(), 1);
    assert_eq!(shown.title, "notes.txt");
}

#[test]
fn five_mib_file_is_too_large() {
    let name = String::from("big.log");
    let mut previewer = FilePreviewer::new(None);
    let facts = FileFacts { size: Some(5 * 1024 * 1024), file_type: FileType::Text, opened: true };
    let decision = previewer.decide(&name, facts);
    assert_eq!(decision, PreviewDecision::Stored(PreviewKind::TooLarge));
    assert!(!decision.starts_computation());
    assert_eq!(previewer.cached(&name).unwrap().kind(), PreviewKind::TooLarge);
}

#[test]
fn size_ceiling_is_inclusive() {
    let mut previewer = FilePreviewer::new(None);
    let at = FileFacts { size: Some(MAX_FILE_SIZE), file_type: FileType::Text, opened: true };
    let over = FileFacts { size: Some(MAX_FILE_SIZE + 1), file_type: FileType::Text, opened: true };
    assert_eq!(previewer.decide(&String::from("a"), at), PreviewDecision::Stored(PreviewKind::Loading));
    assert_eq!(previewer.decide(&String::from("b"), over), PreviewDecision::Stored(PreviewKind::TooLarge));
    let unknown_size = FileFacts { size: None, file_type: FileType::Text, opened: true };
    assert_eq!(
        previewer.decide(&String::from("c"), unknown_size),
        PreviewDecision::Stored(PreviewKind::Loading)
    );
}

#[test]
fn binary_file_without_known_extension_is_not_supported() {
    let mut head = vec![1u8; 256];
    for i in 0..26 {
        head[i * 9 + 3] = b'a';
    }
    let file_type = get_file_type(&head, false);
    assert_eq!(file_type, FileType::Unknown);
    let mut previewer = FilePreviewer::new(None);
    let facts = FileFacts { size: Some(256), file_type, opened: true };
    let decision = previewer.decide(&String::from("blob"), facts);
    assert_eq!(decision, PreviewDecision::Stored(PreviewKind::NotSupported));
    assert!(!decision.starts_computation());
}

#[test]
fn second_request_for_a_cold_entry_starts_nothing() {
    let name = String::from("src/main.rs");
    let mut previewer = FilePreviewer::new(None);
    let facts = FileFacts { size: Some(120), file_type: FileType::Text, opened: true };
    let first = previewer.decide(&name, facts);
    let second = previewer.decide(&name, facts);
    assert!(first.starts_computation());
    assert_eq!(second, PreviewDecision::Cached);
    assert!(!second.starts_computation());
}

#[test]
fn unopenable_text_file_is_not_supported() {
    let mut previewer = FilePreviewer::new(None);
    let facts = FileFacts { size: Some(3), file_type: FileType::Text, opened: false };
    let decision = previewer.decide(&String::from("locked.txt"), facts);
    assert_eq!(decision, PreviewDecision::Stored(PreviewKind::NotSupported));
    let image = FileFacts { size: Some(3), file_type: FileType::Image, opened: true };
    assert_eq!(
        previewer.decide(&String::from("cat.png"), image),
        PreviewDecision::Stored(PreviewKind::NotSupported)
    );
}

#[test]
fn cache_keeps_the_latest_insert() {
    let mut cache = PreviewCache::new();
    let k = String::from("k");
    assert!(cache.get(&k).is_none());
    cache.insert(k.clone(), loading(&k));
    assert_eq!(cache.get(&k).unwrap().kind(), PreviewKind::Loading);
    cache.insert(String::from("other"), not_supported(&String::from("other")));
    assert_eq!(cache.get(&k).unwrap().kind(), PreviewKind::Loading);
    cache.insert(k.clone(), not_supported(&k));
    assert_eq!(cache.get(&k).unwrap().kind(), PreviewKind::NotSupported);
    assert_eq!(cache.get(&String::from("other")).unwrap().title, "other");
}

#[test]
fn classification_by_mime_extension_and_sample() {
    assert_eq!(classify(Some("image/png"), false, b""), FileType::Image);
    assert_eq!(classify(Some("text/html"), false, b""), FileType::Text);
    assert_eq!(classify(Some("application/zip"), true, b"abc"), FileType::Other);
    assert_eq!(classify(None, true, b"\x00\x00"), FileType::Text);
    assert_eq!(classify(None, false, b"plain words"), FileType::Text);
    assert_eq!(classify(None, false, b""), FileType::Unknown);
    assert_eq!(classify(None, false, b"\x00\x01\x02"), FileType::Unknown);
}

#[test]
fn sniffed_magic_bytes_decide_the_type() {
    let png = b"\x89PNG\r\n\x1a\n\x00\x00\x00\x0dIHDR";
    assert_eq!(get_file_type(png, true), FileType::Image);
    let zip = b"PK\x03\x04\x14\x00\x00\x00";
    assert_eq!(get_file_type(zip, true), FileType::Other);
    assert_eq!(get_file_type(b"plain", true), FileType::Text);
    assert!(is_known_text_extension(&SyntaxSet::load_defaults_newlines(), "rs"));
}

#[test]
fn prepared_lines_end_with_a_line_feed() {
    let raw = vec![String::from("a\tb"), String::from("x\r")];
    let lines = prepare_lines(&raw);
    assert_eq!(lines, vec![String::from("a    b\n"), String::from("x\n")]);
}

#[test]
fn highlighting_without_a_grammar_fails() {
    let set = SyntaxSet::load_defaults_newlines();
    let lines = vec![String::from("x\n")];
    let r = highlight_lines(&set, &theme(), "no-such-extension", &lines);
    assert_eq!(r.err(), Some(HighlightError::NoSyntax));
    let ok = highlight_lines(&set, &theme(), "rs", &vec![String::from("fn a() {}\n"), String::from("\n")]);
    assert_eq!(ok.unwrap().len(), 2);
    let name = String::from("f.zzz");
    let p = highlighted_preview(&name, Err(HighlightError::NoSyntax));
    assert_eq!(p.kind(), PreviewKind::NotSupported);
    let read = vec![Some(String::from("x"))];
    let p = compute_highlighted_text_preview(&name, &read, "zzz", &set, &theme());
    assert_eq!(p.kind(), PreviewKind::NotSupported);
    assert!(!is_known_text_extension(&set, "zzz"));
    assert!(is_known_text_extension(&set, "RS"));
}

#[test]
fn plain_text_preview_stops_at_a_read_error() {
    let title = String::from("t");
    let p = plain_text_preview(&title, &vec![Some(String::from("a\x00")), Some(String::from("b"))]);
    match &p.content {
        PreviewContent::PlainText(lines) => assert_eq!(lines, &vec![String::from("a"), String::from("b")]),
        _ => panic!("expected plain text"),
    }
    let p = plain_text_preview(&title, &vec![Some(String::from("a")), None]);
    assert_eq!(p.kind(), PreviewKind::NotSupported);
    let many: Vec<Option<String>> = (0..250).map(|i| Some(i.to_string())).collect();
    assert_eq!(plain_text_preview(&title, &many).line_count(), 200);
}

#[test]
fn match_segments_split_matched_runs() {
    let segs = match_segments("hello world", &vec![(0, 2), (6, 8)]);
    assert_eq!(
        segs,
        vec![("", false), ("he", true), ("llo ", false), ("wo", true), ("rld", false)]
    );
    let none = match_segments("abc", &vec![]);
    assert_eq!(none, vec![("abc", false)]);
}

#[test]
fn settings_and_actions() {
    let ui = UiConfig::default();
    assert_eq!(ui.ui_scale, DEFAULT_UI_SCALE);
    assert!(!ui.use_nerd_font_icons);
    assert!(ui.show_help_bar);
    assert_eq!(FilePreviewerConfig::new(String::from("Monokai")).theme, "Monokai");
    assert_eq!(Action::AddInputChar('a').name(), "AddInputChar");
    assert_eq!(Action::Resize(1, 2).name(), "Resize");
    assert_eq!(Action::Quit.name(), "Quit");
    let p = Preview::new(String::from("x"), PreviewContent::TooLarge);
    assert_eq!(p.kind(), PreviewKind::TooLarge);
    assert_eq!(p.line_count(), 0);
}

#[test]
fn read_error_while_highlighting_is_not_supported() {
    let previewer = FilePreviewer::new(None);
    let name = String::from("broken.rs");
    let lines = vec![Some(String::from("fn a() {}")), None, Some(String::from("}"))];
    let p = compute_highlighted_text_preview(
        &name,
        &lines,
        "rs",
        previewer.syntax_set(),
        previewer.syntax_theme(),
    );
    assert_eq!(p.kind(), PreviewKind::NotSupported);
    assert_eq!(p.title, "broken.rs");
    let ok = compute_highlighted_text_preview(
        &name,
        &vec![Some(String::from("fn a() {}")), Some(String::from("}"))],
        "rs",
        previewer.syntax_set(),
        previewer.syntax_theme(),
    );
    assert_eq!(ok.kind(), PreviewKind::HighlightedText);
    assert_eq!(ok.line_count(), 2);
    assert!(lines_read(&lines).is_none());
    assert_eq!(lines_read(&vec![Some(String::from("a"))]), Some(vec![String::from("a")]));
}

#[test]
fn previewer_theme_follows_the_configuration() {
    let default = FilePreviewer::new(None);
    assert_eq!(default.theme_name(), "base16-ocean.dark");
    let chosen = FilePreviewer::new(Some(FilePreviewerConfig::new(String::from("InspiredGitHub"))));
    assert_eq!(chosen.theme_name(), "InspiredGitHub");
    let missing = FilePreviewer::new(Some(FilePreviewerConfig::new(String::from("no such theme"))));
    assert_eq!(missing.theme_name(), "no such theme");
    assert!(is_known_text_extension(missing.syntax_set(), "py"));
}
