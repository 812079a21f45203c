use kidproxy::body::BodyAccumulator;

#[test]
fn bodies_are_hashed_whole_and_kept_up_to_the_cap() {
    let mut body = BodyAccumulator::new(8);
    body.observe(b"abcdefghijklmnopqrstuvwxyz");
    let summary = body.finish();
    assert_eq!(
        summary.sha256.as_deref(),
        Some("71c480df93d6ae2f1efad1447c66c9525e316218cf51fc8d9ed832f2daf18b73")
    );
    assert_eq!(summary.preview_base64.as_deref(), Some("YWJjZGVmZ2g="));
    assert_eq!(summary.truncated, Some(true));

    let mut body = BodyAccumulator::new(8);
    body.observe(b"request-body-is-longer-than-preview");
    let summary = body.finish();
    assert_eq!(
        summary.sha256.as_deref(),
        Some("07ce95269e1924df194031ecbeb97c9b1fcb80ed7711c1702e1e89ebc2186f11")
    );
    assert_eq!(summary.preview_base64.as_deref(), Some("cmVxdWVzdC0="));
}

#[test]
fn chunks_make_no_difference() {
    let mut whole = BodyAccumulator::new(1024);
    whole.observe(b"stream-body");
    let mut parts = BodyAccumulator::new(1024);
    parts.observe(b"stream-");
    parts.observe(b"");
    parts.observe(b"body");
    let whole = whole.finish();
    let parts = parts.finish();
    assert_eq!(
        parts.sha256.as_deref(),
        Some("c762ffc75ebed99207b6df46ac412a60665dbe9bfcdaa0c01560cd13ff30e32f")
    );
    assert_eq!(parts.preview_base64.as_deref(), Some("c3RyZWFtLWJvZHk="));
    assert_eq!(parts.truncated, Some(false));
    assert_eq!(whole.sha256, parts.sha256);
    assert_eq!(whole.preview_base64, parts.preview_base64);
}

#[test]
fn bodies_without_bytes_have_no_digest() {
    let mut body = BodyAccumulator::new(8);
    body.observe(b"");
    let summary = body.finish();
    assert_eq!(summary.sha256, None);
    assert_eq!(summary.preview_base64, None);
    assert_eq!(summary.truncated, Some(false));
}
