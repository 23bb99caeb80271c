use llmpad::lines::LineBuffer;

fn strings(lines: &[&str]) -> Vec<String> {
    lines.iter().map(|l| l.to_string()).collect()
}

#[test]
fn line_is_delivered_when_it_ends() {
    let mut buffer = LineBuffer::new();
    assert_eq!(buffer.push_str("a\n"), strings(&["a"]));
    assert_eq!(buffer.finish(), None);
}

#[test]
fn carriage_return_ends_a_line_too() {
    let mut buffer = LineBuffer::new();
    assert_eq!(buffer.push_str("10%\r20%\r100%\n"), strings(&["10%", "20%", "100%"]));
    assert_eq!(buffer.finish(), None);
}

#[test]
fn empty_lines_are_dropped() {
    let mut buffer = LineBuffer::new();
    assert_eq!(buffer.push_str("\n\r\n\na\r\n\r\nb\n\n"), strings(&["a", "b"]));
    assert_eq!(buffer.push_str("\r\r"), Vec::<String>::new());
    assert_eq!(buffer.finish(), None);
}

#[test]
fn text_without_an_end_is_kept_and_flushed_at_the_end() {
    let mut buffer = LineBuffer::new();
    assert_eq!(buffer.push_str("par"), Vec::<String>::new());
    assert_eq!(buffer.push_str("tial"), Vec::<String>::new());
    assert_eq!(buffer.finish(), Some("partial".to_string()));
}

#[test]
fn line_may_arrive_in_pieces() {
    let mut buffer = LineBuffer::new();
    assert_eq!(buffer.push_str("pul"), Vec::<String>::new());
    assert_eq!(buffer.push_str("ling\nlay"), strings(&["pulling"]));
    assert_eq!(buffer.push_str("ers\rdone"), strings(&["layers"]));
    assert_eq!(buffer.push_str(""), Vec::<String>::new());
    assert_eq!(buffer.finish(), Some("done".to_string()));
}

#[test]
fn pieces_give_the_lines_of_the_whole() {
    let text = "one\ntwo\r\nthree\r\rfour";
    let mut whole = LineBuffer::new();
    let mut expected = whole.push_str(text);
    expected.extend(whole.finish());
    assert_eq!(expected, strings(&["one", "two", "three", "four"]));
    for cut in 0..=text.len() {
        let mut buffer = LineBuffer::new();
        let mut got = buffer.push_str(&text[..cut]);
        got.extend(buffer.push_str(&text[cut..]));
        got.extend(buffer.finish());
        assert_eq!(got, expected);
    }
}

#[test]
fn bytes_are_read_as_text() {
    let mut buffer = LineBuffer::new();
    assert_eq!(buffer.push_bytes(b"a\n"), strings(&["a"]));
    assert_eq!(buffer.push_bytes("pr\u{e9}t\n".as_bytes()), strings(&["pr\u{e9}t"]));
    assert_eq!(buffer.push_bytes(b""), Vec::<String>::new());
    assert_eq!(buffer.finish(), None);
}

#[test]
fn bytes_that_are_no_text_become_the_replacement_character() {
    let mut buffer = LineBuffer::new();
    assert_eq!(buffer.push_bytes(&[b'a', 0xff, b'b', b'\n', b'c']), strings(&["a\u{fffd}b"]));
    assert_eq!(buffer.finish(), Some("c".to_string()));
}

#[test]
fn two_streams_deliver_each_line_once() {
    let mut stdout = LineBuffer::new();
    let mut stderr = LineBuffer::new();
    let mut delivered: Vec<String> = Vec::new();
    delivered.extend(stdout.push_bytes(b"a\n"));
    delivered.extend(stderr.push_bytes(b"b\n"));
    delivered.extend(stdout.finish());
    delivered.extend(stderr.finish());
    assert_eq!(delivered.iter().filter(|l| l.as_str() == "a").count(), 1);
    assert_eq!(delivered.iter().filter(|l| l.as_str() == "b").count(), 1);
    assert_eq!(delivered.len(), 2);
}
