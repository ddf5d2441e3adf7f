use tineplayer::markup::{escape_markup, note_with_link, summary_markup, MOST_LANGUAGES};

/// What a summary line says when the file carries no such track at all.
const NO_TRACKS: &str = "None";

fn languages(count: usize) -> Vec<String> {
    (0..count).map(|i| format!("Lang{i}")).collect()
}

#[test]
fn either_line_counts_what_it_left_out() {
    for name in ["Audio", "Subtitles"] {
        let line = summary_markup(name, &languages(MOST_LANGUAGES + 5));
        assert!(line.contains("+5 more"), "{name} did not count the rest");
        assert!(line.starts_with(&format!("<span alpha='60%'>{name}:</span>")));
    }
}

#[test]
fn nothing_left_over_is_said_about() {
    let line = summary_markup("Audio", &languages(MOST_LANGUAGES));
    assert!(!line.contains("more"));
    assert!(line.contains("Lang0"));
    assert!(line.contains(&format!("Lang{}", MOST_LANGUAGES - 1)));
}

#[test]
fn never_names_more_than_the_limit() {
    let line = summary_markup("Subtitles", &languages(40));
    assert_eq!(line.matches("Lang").count(), MOST_LANGUAGES);
    assert!(line.contains(&format!("+{} more", 40 - MOST_LANGUAGES)));
}

#[test]
fn nothing_at_all_says_so() {
    let line = summary_markup("Subtitles", &[]);
    assert!(line.contains(NO_TRACKS));
    assert!(!line.contains("more"));
}

#[test]
fn a_language_named_with_markup_cannot_break_the_line() {
    let line = summary_markup("Audio", &["Ol' <b>Bill</b> & Ben".to_string()]);
    assert!(line.contains("&amp;"));
    assert!(line.contains("&lt;b&gt;"));
}

#[test]
fn a_whole_line_reads_exactly() {
    let line = summary_markup("Audio", &["English".to_string(), "French".to_string()]);
    assert_eq!(line, "<span alpha='60%'>Audio:</span> English, French");
    let line = summary_markup("Subtitles", &languages(7));
    assert_eq!(
        line,
        "<span alpha='60%'>Subtitles:</span> Lang0, Lang1, Lang2, Lang3, Lang4, Lang5, <span alpha='60%'>+1 more</span>"
    );
}

#[test]
fn markup_is_escaped_as_glib_escapes_it() {
    assert_eq!(escape_markup("a & b"), "a &amp; b");
    assert_eq!(escape_markup("<i>'x'</i>"), "&lt;i&gt;&#39;x&#39;&lt;/i&gt;");
    assert_eq!(escape_markup("\"quoted\""), "&quot;quoted&quot;");
    assert_eq!(escape_markup("bell\u{7}"), "bell&#x7;");
    assert_eq!(escape_markup("\u{1f}\u{9f}"), "&#x1f;&#x9f;");
    assert_eq!(escape_markup("tab\tand newline\n"), "tab\tand newline\n");
    assert_eq!(escape_markup("\u{85}é"), "\u{85}é");
    assert_eq!(escape_markup(""), "");
}

#[test]
fn the_data_folder_link_sits_on_its_sentence() {
    assert_eq!(
        note_with_link("Delete & forget.", "file:///home/a&b"),
        "Delete &amp; forget.  <a href=\"file:///home/a&amp;b\">Open user data folder</a>"
    );
}
