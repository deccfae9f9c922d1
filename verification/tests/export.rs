use logstream::export::{ExportError, export_raw, write_raw};
use logstream::sections::IndexSection;
use logstream::stream::{Attachment, MessageStreamItem, ParseYield, TextMessage};
use tokio_util::sync::CancellationToken;

fn text(s: &str) -> TextMessage {
    TextMessage {
        content: s.as_bytes().to_vec(),
    }
}

fn item(s: &str) -> (usize, MessageStreamItem<TextMessage>) {
    (0, MessageStreamItem::Item(ParseYield::Message(text(s))))
}

fn attachment_item() -> (usize, MessageStreamItem<TextMessage>) {
    (
        0,
        MessageStreamItem::Item(ParseYield::Attachment(Attachment {
            name: String::from("att"),
            data: vec![1, 2, 3],
        })),
    )
}

fn done() -> (usize, MessageStreamItem<TextMessage>) {
    (0, MessageStreamItem::Done)
}

fn section(first_line: usize, last_line: usize) -> IndexSection {
    IndexSection {
        first_line,
        last_line,
    }
}

#[test]
fn export_everything_writes_all_messages_text_mode() {
    let items = vec![item("One"), item("Two"), item("Three"), done()];
    let mut out: Vec<u8> = Vec::new();
    let cancel = CancellationToken::new();
    let count = export_raw(&items, &mut out, &vec![], false, true, &cancel).unwrap();
    assert_eq!(count, 3);
    assert_eq!(out, b"One\nTwo\nThree\n".to_vec());
}

#[test]
fn export_everything_binary_mode_has_no_separators() {
    let items = vec![item("ab"), item("cd"), done()];
    let mut out: Vec<u8> = Vec::new();
    let cancel = CancellationToken::new();
    let count = export_raw(&items, &mut out, &vec![], false, false, &cancel).unwrap();
    assert_eq!(count, 2);
    assert_eq!(out, b"abcd".to_vec());
}

#[test]
fn export_with_sections_writes_only_inside_rows() {
    let items = vec![
        item("row0"),
        item("row1"),
        item("row2"),
        item("row3"),
        item("row4"),
        done(),
    ];
    let sections = vec![section(1, 2), section(4, 4)];
    let mut out: Vec<u8> = Vec::new();
    let cancel = CancellationToken::new();
    let count = export_raw(&items, &mut out, &sections, false, true, &cancel).unwrap();
    // with sections and no trailing drain, the returned count is zero
    assert_eq!(count, 0);
    assert_eq!(out, b"row1\nrow2\nrow4\n".to_vec());
}

#[test]
fn export_rejects_invalid_sections_before_consuming() {
    let items = vec![item("row0"), done()];
    let sections = vec![section(3, 1)];
    let mut out: Vec<u8> = Vec::new();
    let cancel = CancellationToken::new();
    let result = export_raw(&items, &mut out, &sections, false, true, &cancel);
    assert!(matches!(result, Err(ExportError::Config(_))));
    assert!(out.is_empty());
}

#[test]
fn export_rejects_overlapping_sections() {
    let items = vec![item("row0"), done()];
    let sections = vec![section(0, 2), section(2, 4)];
    let mut out: Vec<u8> = Vec::new();
    let cancel = CancellationToken::new();
    let result = export_raw(&items, &mut out, &sections, false, true, &cancel);
    assert!(matches!(result, Err(ExportError::Config(_))));
    assert!(out.is_empty());
}

#[test]
fn export_cancelled_reports_cancelled_and_writes_nothing_more() {
    let items = vec![item("row0"), item("row1"), done()];
    let mut out: Vec<u8> = Vec::new();
    let cancel = CancellationToken::new();
    cancel.cancel();
    let result = export_raw(&items, &mut out, &vec![], false, true, &cancel);
    assert!(matches!(result, Err(ExportError::Cancelled)));
    // the cancellation was observed before the first item: nothing was written
    assert!(out.is_empty());
}

#[test]
fn export_appends_to_existing_destination() {
    let first = vec![item("first"), done()];
    let second = vec![item("second"), done()];
    let mut out: Vec<u8> = Vec::new();
    let cancel = CancellationToken::new();
    export_raw(&first, &mut out, &vec![], false, true, &cancel).unwrap();
    assert_eq!(out, b"first\n".to_vec());
    export_raw(&second, &mut out, &vec![], false, true, &cancel).unwrap();
    assert_eq!(out, b"first\nsecond\n".to_vec());
}

#[test]
fn export_read_to_end_counts_only_the_drain_phase() {
    // two writable rows inside sections, then Done, then a trailing shared
    // stream with three more rows before its own end
    let items = vec![
        item("row0"),
        item("row1"),
        done(),
        item("tail0"),
        item("tail1"),
        item("tail2"),
        done(),
    ];
    let sections = vec![section(0, 1)];
    let mut out: Vec<u8> = Vec::new();
    let cancel = CancellationToken::new();
    let count = export_raw(&items, &mut out, &sections, true, true, &cancel).unwrap();
    // two messages were written, but the count reports the drain phase only
    assert_eq!(count, 3);
    assert_ne!(count, 2);
    assert_eq!(out, b"row0\nrow1\n".to_vec());
}

#[test]
fn export_read_to_end_with_nothing_after_done_counts_zero() {
    let items = vec![item("row0"), done()];
    let sections = vec![section(0, 0)];
    let mut out: Vec<u8> = Vec::new();
    let cancel = CancellationToken::new();
    let count = export_raw(&items, &mut out, &sections, true, true, &cancel).unwrap();
    assert_eq!(count, 0);
    assert_eq!(out, b"row0\n".to_vec());
}

#[test]
fn export_skips_non_message_yields_but_advances_ordinals() {
    // the attachment-only yield occupies ordinal 1 and writes nothing
    let items = vec![item("row0"), attachment_item(), item("row2"), done()];
    let sections = vec![section(1, 2)];
    let mut out: Vec<u8> = Vec::new();
    let cancel = CancellationToken::new();
    export_raw(&items, &mut out, &sections, false, true, &cancel).unwrap();
    assert_eq!(out, b"row2\n".to_vec());
}

#[test]
fn export_ignores_skipped_and_incomplete_markers() {
    let items = vec![
        item("row0"),
        (0, MessageStreamItem::Skipped),
        (0, MessageStreamItem::Incomplete),
        item("row1"),
        done(),
    ];
    let sections = vec![section(1, 1)];
    let mut out: Vec<u8> = Vec::new();
    let cancel = CancellationToken::new();
    export_raw(&items, &mut out, &sections, false, true, &cancel).unwrap();
    // the markers occupy no ordinal: row1 is the second message
    assert_eq!(out, b"row1\n".to_vec());
}

#[test]
fn export_stops_at_first_done_without_read_to_end() {
    let items = vec![item("row0"), done(), item("after"), done()];
    let mut out: Vec<u8> = Vec::new();
    let cancel = CancellationToken::new();
    let count = export_raw(&items, &mut out, &vec![], false, true, &cancel).unwrap();
    assert_eq!(count, 1);
    assert_eq!(out, b"row0\n".to_vec());
}

#[test]
fn write_raw_writes_message_with_and_without_attachment() {
    let mut out: Vec<u8> = Vec::new();
    let wrote = write_raw(&ParseYield::Message(text("plain")), &mut out, true);
    assert!(wrote);
    let wrote = write_raw(
        &ParseYield::MessageAndAttachment(
            text("with"),
            Attachment {
                name: String::from("a"),
                data: vec![9],
            },
        ),
        &mut out,
        true,
    );
    assert!(wrote);
    let wrote = write_raw::<TextMessage>(
        &ParseYield::Attachment(Attachment {
            name: String::from("b"),
            data: vec![],
        }),
        &mut out,
        true,
    );
    assert!(!wrote);
    assert_eq!(out, b"plain\nwith\n".to_vec());
}

#[test]
fn export_rejects_section_list_with_late_invalid_element() {
    let items = vec![item("row0"), done()];
    let sections = vec![section(0, 1), section(3, 4), section(9, 8)];
    let mut out: Vec<u8> = Vec::new();
    let cancel = CancellationToken::new();
    let result = export_raw(&items, &mut out, &sections, false, true, &cancel);
    assert!(matches!(result, Err(ExportError::Config(_))));
    assert!(out.is_empty());
}

#[test]
fn export_with_sections_binary_mode() {
    let items = vec![item("aa"), item("bb"), item("cc"), done()];
    let sections = vec![section(0, 0), section(2, 2)];
    let mut out: Vec<u8> = Vec::new();
    let cancel = CancellationToken::new();
    export_raw(&items, &mut out, &sections, false, false, &cancel).unwrap();
    assert_eq!(out, b"aacc".to_vec());
}

#[test]
fn export_empty_stream_writes_nothing() {
    let items: Vec<(usize, MessageStreamItem<TextMessage>)> = vec![done()];
    let mut out: Vec<u8> = Vec::new();
    let cancel = CancellationToken::new();
    let count = export_raw(&items, &mut out, &vec![], false, true, &cancel).unwrap();
    assert_eq!(count, 0);
    assert!(out.is_empty());
}
