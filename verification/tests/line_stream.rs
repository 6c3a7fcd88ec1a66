use kotomori::line_stream::{LineBuffer, line_text_of};

fn feed(chunks: &[&[u8]]) -> Vec<String> {
    let mut buffer = LineBuffer::new();
    let mut lines = Vec::new();
    for chunk in chunks {
        for line in buffer.push(chunk) {
            lines.push(line_text_of(&line).unwrap());
        }
    }
    let rest = buffer.into_rest();
    if !rest.is_empty() {
        lines.push(line_text_of(&rest).unwrap());
    }
    lines
}

#[test]
fn for_each() {
    assert_eq!(feed(&[b"foo\nbar", b"baz\nqux"]), ["foo", "barbaz", "qux"]);
}

#[test]
fn lines_are_trimmed_and_empty_lines_kept() {
    assert_eq!(feed(&[b" a \r\n\n", b"b\n"]), ["a", "", "b"]);
}

#[test]
fn invalid_lines_are_reported() {
    assert_eq!(line_text_of(b"\xff"), None);
    assert_eq!(line_text_of("  é ".as_bytes()), Some("é".to_string()));
}

#[test]
fn a_new_line_stream_has_seen_nothing() {
    let stream = kotomori::line_stream::LineStream::new(vec![b"foo\n".to_vec()]);
    assert!(stream.buffer.into_rest().is_empty());
    assert_eq!(stream.stream.len(), 1);
}

#[test]
fn encoded_text_decodes_back_and_is_trimmed() {
    assert_eq!(
        kotomori::line_stream::line_text_of("  héllo 界 ".as_bytes()),
        Some("héllo 界".to_string())
    );
    assert_eq!(kotomori::line_stream::line_text_of(b"\xff"), None);
}
