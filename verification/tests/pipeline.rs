use logstream::export::export_raw;
use logstream::extract::{
    ExtractedMatchValue, SearchFilter, extract_matches, handle, matches_pattern,
};
use logstream::parse::LineParser;
use logstream::producer::MessageProducer;
use logstream::serial::{SerialError, SerialPortsList};
use logstream::source::{ByteSource, SourceBuffer, VecByteSource};
use logstream::stream::{MessageStreamItem, ParseYield, TextMessage};
use tokio_util::sync::CancellationToken;

fn produce_all(content: &[u8]) -> Vec<(usize, MessageStreamItem<TextMessage>)> {
    let source = VecByteSource::new(content.to_vec());
    let mut producer = MessageProducer::new(LineParser::new(), source);
    let mut items = Vec::new();
    loop {
        let (offset, item) = producer.produce_next().unwrap();
        let is_done = matches!(item, MessageStreamItem::Done);
        match item {
            MessageStreamItem::Incomplete => {}
            other => items.push((offset, other)),
        }
        if is_done {
            return items;
        }
    }
}

fn messages_of(items: &[(usize, MessageStreamItem<TextMessage>)]) -> Vec<Vec<u8>> {
    let mut out = Vec::new();
    for (_, item) in items {
        if let MessageStreamItem::Item(ParseYield::Message(m)) = item {
            out.push(m.content.clone());
        }
    }
    out
}

#[test]
fn producer_parses_lines_in_order() {
    let items = produce_all(b"One\nTwo\nThree\n");
    let messages = messages_of(&items);
    assert_eq!(
        messages,
        vec![b"One".to_vec(), b"Two".to_vec(), b"Three".to_vec()]
    );
    assert!(matches!(
        items.last().unwrap().1,
        MessageStreamItem::Done
    ));
}

#[test]
fn producer_pairs_items_with_cumulative_byte_offsets() {
    let items = produce_all(b"ab\ncdef\n");
    let offsets: Vec<usize> = items
        .iter()
        .filter(|(_, item)| matches!(item, MessageStreamItem::Item(_)))
        .map(|(offset, _)| *offset)
        .collect();
    // "ab\n" ends at byte 3, "cdef\n" at byte 8
    assert_eq!(offsets, vec![3, 8]);
}

#[test]
fn producer_emits_done_once_and_then_forever() {
    let source = VecByteSource::new(b"line\n".to_vec());
    let mut producer = MessageProducer::new(LineParser::new(), source);
    let mut saw_done = false;
    for _ in 0..10 {
        let (_, item) = producer.produce_next().unwrap();
        if saw_done {
            assert!(matches!(item, MessageStreamItem::Done));
        }
        if matches!(item, MessageStreamItem::Done) {
            saw_done = true;
        }
    }
    assert!(saw_done);
}

#[test]
fn producer_drops_trailing_partial_line_at_end_of_transport() {
    let items = produce_all(b"whole\npartial");
    let messages = messages_of(&items);
    assert_eq!(messages, vec![b"whole".to_vec()]);
}

#[test]
fn round_trip_export_and_reread_yields_same_messages() {
    let content = b"alpha\nbeta\ngamma\n";
    let items = produce_all(content);
    let mut out: Vec<u8> = Vec::new();
    let cancel = CancellationToken::new();
    export_raw(&items, &mut out, &vec![], false, true, &cancel).unwrap();
    // the unfiltered text-mode export reproduces the destination byte for byte
    assert_eq!(out, content.to_vec());
    let reread = produce_all(&out);
    assert_eq!(messages_of(&reread), messages_of(&items));
}

#[test]
fn source_buffer_consume_in_place() {
    let mut buffer = SourceBuffer::new();
    assert!(buffer.is_empty());
    assert_eq!(buffer.copy_from_slice(b"hello world"), 11);
    assert_eq!(buffer.len(), 11);
    buffer.consume(6);
    assert_eq!(buffer.current_slice(), b"world");
    buffer.copy_from_slice(b"!");
    assert_eq!(buffer.current_slice(), b"world!");
    buffer.consume(6);
    assert!(buffer.is_empty());
}

#[test]
fn vec_byte_source_reloads_and_reports_counts() {
    let mut source = VecByteSource::new(b"abc".to_vec());
    assert!(source.is_empty());
    let info = source.reload().unwrap().unwrap();
    assert_eq!(info.loaded_bytes, 3);
    assert_eq!(info.available_bytes, 3);
    assert_eq!(info.skipped_bytes, 0);
    assert_eq!(source.current_slice(), b"abc");
    source.consume(1);
    assert_eq!(source.current_slice(), b"bc");
    assert_eq!(source.len(), 2);
    // content exhausted: no more data is expected
    assert!(source.reload().unwrap().is_none());
}

#[test]
fn matches_pattern_finds_substrings() {
    assert!(matches_pattern(&b"error: disk full".to_vec(), &b"disk".to_vec()));
    assert!(matches_pattern(&b"abc".to_vec(), &b"".to_vec()));
    assert!(matches_pattern(&b"abc".to_vec(), &b"abc".to_vec()));
    assert!(!matches_pattern(&b"abc".to_vec(), &b"abcd".to_vec()));
    assert!(!matches_pattern(&b"abc".to_vec(), &b"bd".to_vec()));
}

#[test]
fn extract_matches_collects_ordinals_and_filter_indices() {
    let items = produce_all(b"ok start\nerror one\nok again\nwarn error two\n");
    let filters = vec![
        SearchFilter {
            value: b"error".to_vec(),
        },
        SearchFilter {
            value: b"warn".to_vec(),
        },
    ];
    let matches: Vec<ExtractedMatchValue> = extract_matches(&items, &filters);
    assert_eq!(matches.len(), 2);
    assert_eq!(matches[0].index, 1);
    assert_eq!(matches[0].filters, vec![0]);
    assert_eq!(matches[1].index, 3);
    assert_eq!(matches[1].filters, vec![0, 1]);
}

#[test]
fn extract_matches_empty_filters_finds_nothing() {
    let items = produce_all(b"one\ntwo\n");
    let matches = extract_matches(&items, &vec![]);
    assert!(matches.is_empty());
}

#[test]
fn handle_wraps_extraction_result() {
    let items = produce_all(b"needle here\nnothing\n");
    let filters = vec![SearchFilter {
        value: b"needle".to_vec(),
    }];
    let result = handle(&items, &filters).unwrap().unwrap();
    assert_eq!(result.len(), 1);
    assert_eq!(result[0].index, 0);
}

#[test]
fn serial_error_carries_details() {
    let err = SerialError::Setup(String::from("bad baud rate"));
    assert_eq!(err.details().as_str(), "bad baud rate");
    let err = SerialError::Unrecoverable(String::from("device gone"));
    assert_eq!(err.details().as_str(), "device gone");
}

#[test]
fn serial_ports_list_holds_port_names() {
    let list = SerialPortsList(vec![String::from("/dev/ttyS0"), String::from("/dev/ttyS1")]);
    assert_eq!(list.0.len(), 2);
    assert_eq!(list.0[0], "/dev/ttyS0");
}

#[test]
fn vec_byte_source_delivers_large_content_in_chunks() {
    let mut content = vec![b'x'; 2500];
    content.push(b'\n');
    let items = produce_all(&content);
    let messages = messages_of(&items);
    assert_eq!(messages.len(), 1);
    assert_eq!(messages[0].len(), 2500);
    // each reload moves at most the chunk bound, then exactly the rest
    let mut source = VecByteSource::new(vec![b'y'; 1500]);
    let info = source.reload().unwrap().unwrap();
    assert_eq!(info.available_bytes, 1024);
    let info = source.reload().unwrap().unwrap();
    assert_eq!(info.available_bytes, 476);
    assert!(source.reload().unwrap().is_none());
}
