use htmli::scan::{find_include_offsets, find_include_src, next_directive};
use htmli::splice::remove_offsets_insert_str;

fn tag(src: &str) -> String {
    format!("<{}{} src=\"{}\">", "inc", "lude", src)
}

#[test]
fn offsets_of_first_directive() {
    let doc = format!("ab{}cd", tag("s.txt"));
    let bytes = doc.as_bytes().to_vec();
    // The opening token starts after "ab"; the `>` closes the tag just
    // before "cd".
    assert_eq!(find_include_offsets(&bytes), Some((2, doc.len() - 3)));
}

#[test]
fn offsets_none_without_token() {
    let bytes = b"<p>no directive anywhere</p>".to_vec();
    assert_eq!(find_include_offsets(&bytes), None);
}

#[test]
fn offsets_none_without_closing() {
    let doc = format!("<{}{} src=\"s.txt\"", "inc", "lude");
    assert_eq!(find_include_offsets(&doc.into_bytes()), None);
}

#[test]
fn src_between_first_two_quotes() {
    let span = tag("a.txt").into_bytes();
    assert_eq!(find_include_src(&span), Some(b"a.txt".to_vec()));
}

#[test]
fn src_none_without_quotes() {
    let span = format!("<{}{} src=a.txt>", "inc", "lude").into_bytes();
    assert_eq!(find_include_src(&span), None);
}

#[test]
fn next_directive_extracts_span_and_path() {
    let doc = format!("--{}--", tag("a.txt"));
    let d = next_directive(&doc.as_bytes().to_vec()).unwrap().unwrap();
    assert_eq!(d.start, 2);
    assert_eq!(d.end, doc.len() - 2);
    assert_eq!(d.src, b"a.txt".to_vec());
}

#[test]
fn next_directive_none_when_clean() {
    let r = next_directive(&b"plain text".to_vec()).unwrap();
    assert!(r.is_none());
}

#[test]
fn splice_replaces_the_range() {
    let mut buf = b"hello world".to_vec();
    remove_offsets_insert_str(&mut buf, 0, 5, &b"goodbye".to_vec());
    assert_eq!(buf, b"goodbye world".to_vec());
}

#[test]
fn splice_at_empty_range_inserts() {
    let mut buf = b"ad".to_vec();
    remove_offsets_insert_str(&mut buf, 1, 1, &b"bc".to_vec());
    assert_eq!(buf, b"abcd".to_vec());
}
