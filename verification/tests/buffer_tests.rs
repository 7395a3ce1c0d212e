use kom::buffer::{line_width_divisions, logical_line, Buffer};

fn rows_of(buffer: &Buffer, width: usize) -> Vec<String> {
    let mut cursor = buffer.lines(width);
    let mut rows = Vec::new();
    while let Some(row) = cursor.next() {
        rows.push(row.to_string());
    }
    rows
}

#[test]
fn empty_line_takes_one_row() {
    assert_eq!(line_width_divisions("", 10), 1);
    assert_eq!(line_width_divisions("", 1), 1);
}

#[test]
fn row_count_rounds_up() {
    assert_eq!(line_width_divisions("a", 10), 1);
    assert_eq!(line_width_divisions("abcdefghi", 10), 1);
    assert_eq!(line_width_divisions("abcdefghijk", 10), 2);
    assert_eq!(line_width_divisions("abcdefghijklmnopqrstu", 10), 3);
    assert_eq!(line_width_divisions("abc", 1), 3);
    assert_eq!(line_width_divisions("abc", 2), 2);
}

#[test]
fn exact_multiple_takes_no_extra_row() {
    assert_eq!(line_width_divisions("abcdefghij", 10), 1);
    assert_eq!(line_width_divisions("abcdefghijabcdefghij", 10), 2);
    assert_eq!(line_width_divisions("abcdef", 3), 2);
    assert_eq!(line_width_divisions("abcdef", 6), 1);
}

#[test]
fn row_count_is_the_ceiling_for_small_values() {
    for len in 0..40usize {
        let line = "x".repeat(len);
        for width in 1..12usize {
            let ceiling = (len + width - 1) / width;
            let expected = if ceiling < 1 { 1 } else { ceiling };
            assert_eq!(line_width_divisions(&line, width), expected);
            if len > 0 && len % width == 0 {
                assert_eq!(line_width_divisions(&line, width), len / width);
            }
        }
    }
}

#[test]
fn rows_count_characters_not_bytes() {
    assert_eq!(line_width_divisions("äöü", 3), 1);
    assert_eq!(line_width_divisions("äöüß", 3), 2);
}

#[test]
fn logical_line_strips_one_newline() {
    assert_eq!(logical_line(String::from("abc\n")), Some(String::from("abc")));
    assert_eq!(logical_line(String::from("\n")), Some(String::new()));
    assert_eq!(logical_line(String::from("abc\n\n")), Some(String::from("abc\n")));
    assert_eq!(logical_line(String::from("abc\r\n")), Some(String::from("abc\r")));
}

#[test]
fn logical_line_keeps_a_last_line_without_newline() {
    assert_eq!(logical_line(String::from("abc")), Some(String::from("abc")));
}

#[test]
fn logical_line_of_nothing_is_the_end() {
    assert_eq!(logical_line(String::new()), None);
}

#[test]
fn new_buffer_has_no_rows() {
    let buffer = Buffer::new();
    assert_eq!(buffer.len(10), 0);
    assert_eq!(rows_of(&buffer, 10), Vec::<String>::new());
}

#[test]
fn append_line_hands_back_the_line() {
    let mut buffer = Buffer::new();
    assert_eq!(buffer.append_line(String::from("abcdefghijk\n")), Some("abcdefghijk"));
    assert_eq!(buffer.append_line(String::from("xyz\n")), Some("xyz"));
    assert_eq!(buffer.len(10), 3);
}

#[test]
fn append_line_at_the_end_changes_nothing() {
    let mut buffer = Buffer::new();
    buffer.append_line(String::from("one\n"));
    assert_eq!(buffer.append_line(String::new()), None);
    assert_eq!(buffer.len(10), 1);
    assert_eq!(rows_of(&buffer, 10), vec!["one"]);
}

#[test]
fn rows_of_two_lines() {
    let mut buffer = Buffer::new();
    buffer.append_line(String::from("abcdefghijk\n"));
    buffer.append_line(String::from("xyz\n"));
    assert_eq!(rows_of(&buffer, 10), vec!["abcdefghij", "k", "xyz"]);
    assert_eq!(buffer.len(10), 3);
}

#[test]
fn empty_line_gives_one_empty_row() {
    let mut buffer = Buffer::new();
    buffer.append_line(String::from("\n"));
    assert_eq!(rows_of(&buffer, 10), vec![""]);
    assert_eq!(buffer.len(10), 1);
}

#[test]
fn wrapping_starts_anew_with_each_line() {
    let mut buffer = Buffer::new();
    buffer.append_line(String::from("abcde\n"));
    buffer.append_line(String::from("\n"));
    buffer.append_line(String::from("fghijkl\n"));
    buffer.append_line(String::from("mnop\n"));
    assert_eq!(rows_of(&buffer, 4), vec!["abcd", "e", "", "fghi", "jkl", "mnop"]);
    assert_eq!(buffer.len(4), 6);
    assert_eq!(rows_of(&buffer, 100), vec!["abcde", "", "fghijkl", "mnop"]);
    assert_eq!(buffer.len(100), 4);
    assert_eq!(buffer.len(1), 5 + 1 + 7 + 4);
}

#[test]
fn rows_can_be_asked_for_again() {
    let mut buffer = Buffer::new();
    buffer.append_line(String::from("abcdefghijk\n"));
    let first = rows_of(&buffer, 10);
    let second = rows_of(&buffer, 10);
    assert_eq!(first, second);
}

#[test]
fn cursor_stays_at_the_end() {
    let mut buffer = Buffer::new();
    buffer.append_line(String::from("ab\n"));
    let mut cursor = buffer.lines(1);
    assert_eq!(cursor.next(), Some("a"));
    assert_eq!(cursor.next(), Some("b"));
    assert_eq!(cursor.next(), None);
    assert_eq!(cursor.next(), None);
}

#[test]
fn rows_split_between_characters() {
    let mut buffer = Buffer::new();
    buffer.append_line(String::from("äöüß\n"));
    assert_eq!(rows_of(&buffer, 3), vec!["äöü", "ß"]);
}

#[test]
fn rows_put_together_are_the_line() {
    let line = "The quick brown fox jumps over the lazy dog";
    for width in 1..50usize {
        let mut buffer = Buffer::new();
        buffer.append_line(format!("{}\n", line));
        let rows = rows_of(&buffer, width);
        assert_eq!(rows.concat(), line);
        assert_eq!(rows.len(), line_width_divisions(line, width));
        for row in &rows[..rows.len() - 1] {
            assert_eq!(row.chars().count(), width);
        }
        let last = rows[rows.len() - 1].chars().count();
        assert!(1 <= last && last <= width);
    }
}
