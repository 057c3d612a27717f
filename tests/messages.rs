use hexcat::messages::{reader_step, MessageOrigin, Messages, ReadOutcome, ReaderStep};
use hexcat::paint::Painter;
use hexcat::terminal::Size;

fn row(cells: &[char]) -> String {
    cells.iter().collect()
}

fn padded(text: &str, width: usize) -> String {
    let mut r = String::from(text);
    while r.chars().count() < width {
        r.push(' ');
    }
    r
}

#[test]
fn log_rows_have_the_requested_shape() {
    for count in [0usize, 2, 4, 10] {
        let mut log = Messages::new();
        for k in 0..count {
            log.handle_message(MessageOrigin::Remote(vec![k as u8]));
        }
        let rows = log.paint(Size { width: 40, height: 5 });
        assert_eq!(rows.len(), 5);
        for r in &rows {
            assert_eq!(r.len(), 40);
        }
    }
}

#[test]
fn log_shows_newest_messages_and_a_free_row() {
    let mut log = Messages::new();
    for k in 0..10u8 {
        log.handle_message(MessageOrigin::Remote(vec![k]));
    }
    assert_eq!(log.len(), 10);
    let rows = log.paint(Size { width: 20, height: 4 });
    assert_eq!(row(&rows[0]), padded(" REMOTE │ 07  ", 20));
    assert_eq!(row(&rows[1]), padded(" REMOTE │ 08  ", 20));
    assert_eq!(row(&rows[2]), padded(" REMOTE │ 09  ", 20));
    assert_eq!(row(&rows[3]), padded("        │", 20));
}

#[test]
fn empty_log_is_bordered_blank_rows() {
    let log = Messages::new();
    let rows = log.paint(Size { width: 12, height: 2 });
    assert_eq!(row(&rows[0]), "        │   ");
    assert_eq!(row(&rows[1]), "        │   ");
    assert_eq!(log.paint(Size { width: 12, height: 0 }).len(), 0);
}

#[test]
fn local_message_row() {
    let mut log = Messages::new();
    log.handle_message(MessageOrigin::Local(vec![0x41, 0x42]));
    let rows = log.paint(Size { width: 24, height: 2 });
    assert_eq!(row(&rows[0]), padded("  LOCAL │ 41 42", 24));
    assert_eq!(rows[0].len(), 24);
}

#[test]
fn long_message_is_cut_to_width() {
    let mut log = Messages::new();
    log.handle_message(MessageOrigin::Local(vec![0x3c; 30]));
    let rows = log.paint(Size { width: 40, height: 3 });
    assert_eq!(rows[0].len(), 40);
    let expected = format!("  LOCAL │ {} ", &"3c ".repeat(30)[..29]);
    assert_eq!(row(&rows[0]), expected);
    assert_eq!(expected.chars().count(), 40);
}

#[test]
fn hex_dump_is_lowercase_two_digits() {
    let mut log = Messages::new();
    log.handle_message(MessageOrigin::Remote(vec![0x00, 0xab, 0x0f, 0xff]));
    let rows = log.paint(Size { width: 30, height: 2 });
    assert_eq!(row(&rows[0]), padded(" REMOTE │ 00 ab 0f ff", 30));
}

#[test]
fn zero_length_read_stops_the_reader() {
    let buffer = [1u8, 2, 3];
    assert!(matches!(reader_step(ReadOutcome::Read(0), &buffer), ReaderStep::Stop));
}

#[test]
fn read_forwards_exactly_the_bytes_read() {
    let buffer = [1u8, 2, 3, 4];
    match reader_step(ReadOutcome::Read(3), &buffer) {
        ReaderStep::Forward(bytes) => assert_eq!(bytes, vec![1, 2, 3]),
        _ => panic!("expected the bytes to be forwarded"),
    }
}

#[test]
fn would_block_retries_and_failure_stops() {
    let buffer = [0u8; 4];
    assert!(matches!(reader_step(ReadOutcome::WouldBlock, &buffer), ReaderStep::Retry));
    assert!(matches!(reader_step(ReadOutcome::Failed, &buffer), ReaderStep::Stop));
}
