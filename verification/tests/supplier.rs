use bvh_anim::lines::{select_axis_fields, select_frame_time_field};
use bvh_anim::{EnumeratedLines, NumberError, SourceLine};

fn plain(text: &str) -> SourceLine {
    SourceLine::new(text.as_bytes().to_vec(), vec![], vec![], None)
}

#[test]
fn lines_are_numbered_from_one() {
    let mut supplier = EnumeratedLines::new(vec![plain("a"), plain(""), plain("c")]);
    assert_eq!(supplier.last_enumerator(), None);
    assert_eq!(supplier.next(), Some(1));
    assert_eq!(supplier.last_enumerator(), Some(1));
    assert_eq!(supplier.line(1).content, Some(b"a".to_vec()));
    assert_eq!(supplier.next(), Some(2));
    assert_eq!(supplier.next(), Some(3));
    assert_eq!(supplier.line(3).content, Some(b"c".to_vec()));
    assert_eq!(supplier.next(), None);
    assert_eq!(supplier.next(), None);
    assert_eq!(supplier.last_enumerator(), Some(3));
}

#[test]
fn blank_lines_are_skipped_and_counted() {
    let mut supplier = EnumeratedLines::new(vec![
        plain(""),
        plain("   "),
        plain("\t \u{2003}"),
        plain(" x "),
        plain(""),
        plain("y"),
        plain(""),
    ]);
    assert_eq!(supplier.next_non_empty_line(), Some(4));
    assert_eq!(supplier.last_enumerator(), Some(4));
    assert_eq!(supplier.next_non_empty_line(), Some(6));
    assert_eq!(supplier.next_non_empty_line(), None);
    assert_eq!(supplier.last_enumerator(), Some(7));
    assert_eq!(supplier.next_non_empty_line(), None);
}

#[test]
fn an_unreadable_line_is_not_skipped() {
    let mut supplier =
        EnumeratedLines::new(vec![plain(""), SourceLine::unreadable(), plain("x")]);
    assert_eq!(supplier.next_non_empty_line(), Some(2));
    assert_eq!(supplier.line(2).content, None);
    assert_eq!(supplier.next_non_empty_line(), Some(3));
}

#[test]
fn an_empty_document_has_no_lines() {
    let mut supplier = EnumeratedLines::new(vec![]);
    assert_eq!(supplier.next_non_empty_line(), None);
    assert_eq!(supplier.next(), None);
    assert_eq!(supplier.last_enumerator(), None);
}

#[test]
fn the_fields_to_read_are_told() {
    let fields = SourceLine::axis_fields(b"  OFFSET 1.5 :2 x 4 5");
    assert_eq!(fields, vec![b"1.5".to_vec(), b"2".to_vec(), b"x".to_vec()]);
    assert_eq!(SourceLine::axis_fields(b"OFFSET 1"), vec![b"1".to_vec()]);
    assert!(SourceLine::axis_fields(b"OFFSET").is_empty());
    assert!(SourceLine::axis_fields(b"CHANNELS 1 2 3").is_empty());
    assert!(SourceLine::axis_fields(b"").is_empty());

    let fields = SourceLine::value_fields(" 1 2\t3:4 \u{2003}5 ".as_bytes());
    assert_eq!(fields, vec![b"1".to_vec(), b"2".to_vec(), b"3:4".to_vec(), b"5".to_vec()]);
    assert!(SourceLine::value_fields(b"  \t ").is_empty());

    assert_eq!(SourceLine::frame_time_field(b"Frame Time: 0.5"), Some(b"0.5".to_vec()));
    assert_eq!(SourceLine::frame_time_field(b" Frame  Time: : 0.5 x"), Some(b"0.5".to_vec()));
    assert_eq!(SourceLine::frame_time_field(b"Frame Time: :"), None);
    assert_eq!(SourceLine::frame_time_field(b"Frame Time:"), None);
    assert_eq!(SourceLine::frame_time_field(b"Frame Time 0.5"), None);
    assert_eq!(SourceLine::frame_time_field(b"Frames: 2"), None);
}

#[test]
fn a_line_holds_what_it_was_given() {
    let line = SourceLine::new(
        b"OFFSET 1 x".to_vec(),
        vec![Ok(7), Err(NumberError::InvalidDigit(0))],
        vec![Err(NumberError::Empty)],
        Some(Ok(9)),
    );
    assert_eq!(line.content, Some(b"OFFSET 1 x".to_vec()));
    assert_eq!(line.axes, vec![Ok(7), Err(NumberError::InvalidDigit(0))]);
    assert_eq!(line.values, vec![Err(NumberError::Empty)]);
    assert_eq!(line.frame_time, Some(Ok(9)));
    let line = SourceLine::unreadable();
    assert_eq!(line.content, None);
    assert!(line.axes.is_empty());
    assert!(line.values.is_empty());
    assert_eq!(line.frame_time, None);
}

fn fields(words: &[&str]) -> Vec<Vec<u8>> {
    words.iter().map(|w| w.as_bytes().to_vec()).collect()
}

#[test]
fn the_axis_fields_are_picked_from_the_fields() {
    assert_eq!(select_axis_fields(&fields(&["OFFSET", "1", "2", "3"])), fields(&["1", "2", "3"]));
    assert_eq!(
        select_axis_fields(&fields(&["OFFSET", "1", "2", "3", "4"])),
        fields(&["1", "2", "3"])
    );
    assert_eq!(select_axis_fields(&fields(&["OFFSET", "1", "x"])), fields(&["1", "x"]));
    assert!(select_axis_fields(&fields(&["OFFSET"])).is_empty());
    assert!(select_axis_fields(&fields(&["Offset", "1", "2", "3"])).is_empty());
    assert!(select_axis_fields(&fields(&["JOINT", "1", "2", "3"])).is_empty());
    assert!(select_axis_fields(&fields(&[])).is_empty());
}

#[test]
fn the_field_of_the_frame_time_is_picked_from_the_fields() {
    assert_eq!(
        select_frame_time_field(&fields(&["Frame", "Time:", "0.5"])),
        Some(b"0.5".to_vec())
    );
    assert_eq!(
        select_frame_time_field(&fields(&["Frame", "Time:", ":", "0.5", "x"])),
        Some(b"0.5".to_vec())
    );
    assert_eq!(select_frame_time_field(&fields(&["Frame", "Time:", ":"])), None);
    assert_eq!(select_frame_time_field(&fields(&["Frame", "Time:"])), None);
    assert_eq!(select_frame_time_field(&fields(&["Frame", "Time", "0.5"])), None);
    assert_eq!(select_frame_time_field(&fields(&["Frames:", "Time:", "0.5"])), None);
    assert_eq!(select_frame_time_field(&fields(&[])), None);
}
