use strata::util::ReadLineCb;

fn feed(r: &mut ReadLineCb, bytes: &[u8]) -> Vec<String> {
    let data: Vec<u8> = bytes.to_vec();
    r.feed(&data)
        .into_iter()
        .map(|l| String::from_utf8(l).unwrap())
        .collect()
}

#[test]
fn lines_are_delivered_without_their_newline() {
    let mut r = ReadLineCb::new(1);
    let lines = feed(&mut r, b"hello\nworld\n");
    assert_eq!(lines, ["hello", "world"]);
}

#[test]
fn partial_line_is_retained_across_chunks() {
    let mut r = ReadLineCb::new(1);
    assert!(feed(&mut r, b"par").is_empty());
    assert!(feed(&mut r, b"tial").is_empty());
    let lines = feed(&mut r, b" line\nnext");
    assert_eq!(lines, ["partial line"]);
    let lines = feed(&mut r, b"\n");
    assert_eq!(lines, ["next"]);
}

#[test]
fn empty_lines_are_lines() {
    let mut r = ReadLineCb::new(1);
    let lines = feed(&mut r, b"\n\na\n");
    assert_eq!(lines, ["", "", "a"]);
}

#[test]
fn callback_handle_is_kept() {
    let mut r = ReadLineCb::new(77);
    feed(&mut r, b"x\n");
    assert_eq!(r.cb, 77);
}
