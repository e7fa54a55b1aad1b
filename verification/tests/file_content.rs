use glass_easel_analyzer::file_content::{apply_content_changes, FileContentMetadata, FileLang};

fn opened(text: &str) -> FileContentMetadata {
    let mut f = FileContentMetadata::new(text.to_string(), FileLang::Wxss);
    f.open();
    f
}

#[test]
fn new_file_is_closed_without_line_table() {
    let f = FileContentMetadata::new("a\nb".to_string(), FileLang::Json);
    assert!(!f.opened);
    assert!(f.line_starts.is_empty());
    assert_eq!(f.file_lang, FileLang::Json);
}

#[test]
fn open_builds_line_starts_for_all_line_breaks() {
    let f = opened("ab\ncd\r\nef\rgh");
    assert!(f.opened);
    assert_eq!(f.line_starts, vec![0, 3, 7, 10]);
}

#[test]
fn close_drops_line_table() {
    let mut f = opened("a\nb");
    f.close();
    assert!(!f.opened);
    assert!(f.line_starts.is_empty());
    assert_eq!(f.get_line_utf16_len(0), 0);
}

#[test]
fn line_utf16_len_counts_surrogate_pairs() {
    // "é" is one UTF-16 unit, "😀" two.
    let f = opened("a\u{e9}\u{1F600}\nxyz");
    assert_eq!(f.get_line_utf16_len(0), 5);
    assert_eq!(f.get_line_utf16_len(1), 3);
    assert_eq!(f.get_line_utf16_len(2), 0);
}

#[test]
fn content_index_for_columns() {
    let f = opened("a\u{e9}\u{1F600}b\nxyz");
    assert_eq!(f.content_index_for_line_utf16_col(0, 0), 0);
    assert_eq!(f.content_index_for_line_utf16_col(0, 1), 1);
    assert_eq!(f.content_index_for_line_utf16_col(0, 2), 3);
    // a column inside the surrogate pair points at the character's start
    assert_eq!(f.content_index_for_line_utf16_col(0, 3), 3);
    assert_eq!(f.content_index_for_line_utf16_col(0, 4), 7);
    assert_eq!(f.content_index_for_line_utf16_col(1, 2), 11);
    // columns run on past the end of the line into the next one
    assert_eq!(f.content_index_for_line_utf16_col(0, 7), 10);
    assert_eq!(f.content_index_for_line_utf16_col(1, 9), 12);
    assert_eq!(f.content_index_for_line_utf16_col(5, 0), 12);
}

#[test]
fn line_and_column_for_index() {
    let f = opened("a\u{e9}\u{1F600}b\nxyz");
    assert_eq!(f.line_utf16_col_for_content_index(0), (0, 0));
    assert_eq!(f.line_utf16_col_for_content_index(3), (0, 2));
    assert_eq!(f.line_utf16_col_for_content_index(7), (0, 4));
    assert_eq!(f.line_utf16_col_for_content_index(9), (1, 0));
    assert_eq!(f.line_utf16_col_for_content_index(12), (1, 3));
}

#[test]
fn offsets_round_trip_through_line_and_column() {
    let text = "ab\r\n\u{1D11E}x\ny\u{e9}";
    let f = opened(text);
    let mut boundaries: Vec<usize> = text.char_indices().map(|(i, _)| i).collect();
    boundaries.push(text.len());
    for index in boundaries {
        let (line, col) = f.line_utf16_col_for_content_index(index);
        assert_eq!(f.content_index_for_line_utf16_col(line, col), index);
    }
    assert_eq!(f.line_utf16_col_for_content_index(8), (1, 2));
}

#[test]
fn whole_text_changes_keep_the_last_text() {
    assert_eq!(apply_content_changes("old", vec![]), "old");
    assert_eq!(apply_content_changes("old", vec!["a".to_string(), "b".to_string()]), "b");
}
