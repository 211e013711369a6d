use workshop::errors::RelativeToError;
use workshop::stages::relative_to;

fn ok(s: &str) -> Result<String, String> {
    Ok(s.to_string())
}

#[test]
fn relative_to_resolves_against_each_base() {
    let out = relative_to(
        vec![ok("/a?b"), ok("c")],
        vec![ok("https://example.com/x/y"), Err::<String, String>("base".to_string())],
    );
    assert_eq!(
        out,
        vec![
            Ok("https://example.com/a?b".to_string()),
            Err(RelativeToError::Base("base".to_string())),
            Ok("https://example.com/x/c".to_string()),
            Err(RelativeToError::Base("base".to_string())),
        ]
    );
}

#[test]
fn relative_to_reports_a_bad_base() {
    let out = relative_to(vec![ok("a")], vec![ok("not a url")]);
    assert_eq!(
        out,
        vec![Err(RelativeToError::UrlParseError(
            "not a url".to_string(),
            url::ParseError::RelativeUrlWithoutBase
        ))]
    );
}

#[test]
fn relative_to_passes_a_link_error_once() {
    let out = relative_to(
        vec![Err::<String, String>("link".to_string())],
        vec![ok("https://a.b/"), ok("https://c.d/")],
    );
    assert_eq!(out, vec![Err(RelativeToError::Upstream("link".to_string()))]);
}

#[test]
fn relative_to_keeps_absolute_links() {
    let out = relative_to(vec![ok("https://other.org/z")], vec![ok("https://example.com/")]);
    assert_eq!(out, vec![Ok::<String, RelativeToError<String, String>>("https://other.org/z".to_string())]);
}

#[test]
fn relative_to_counts_items() {
    let out = relative_to(
        vec![ok("a"), Err("e".to_string()), ok("b")],
        vec![ok("https://x.y/"), ok("https://z.w/d/")],
    );
    assert_eq!(out.len(), 2 * 2 + 1);
    assert_eq!(out[4], Ok("https://z.w/d/b".to_string()));
}
