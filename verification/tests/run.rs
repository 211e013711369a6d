use std::collections::HashMap;
use workshop::errors::{EitherError, IndexValueError, JsonStringValueError, WebpageValueError};
use workshop::http::{Client, ClientError};
use workshop::run::{run, run_checked};
use workshop::workshop::Workshop;

struct Pages(HashMap<String, String>);

impl Client for Pages {
    fn get(&self, url: &str) -> Result<String, ClientError> {
        self.0.get(url).cloned().ok_or_else(|| ClientError::Generic(format!("404 {}", url)))
    }
}

const PAGE: &str = "<html><body>\
<selector>{\"foo\": \"embedded\"}</selector>\
<div class=\"class\" data-foobar=\"{'x': {'y': '/media.js'}}\"></div>\
<p class=\"other-class\"> other </p>\
</body></html>";

const MEDIA: &str = "cb({'x': {'a': {'a': 'r/aa', 'b': 'r/ab', 'c': 'r/ac'}, \
'b': {'a': 'r/ba', 'b': 'r/bb', 'c': 'r/bc'}}, 'y': {'a': 'meta a', 'b': 'meta b'}});";

fn client() -> Pages {
    Pages(
        [
            ("https://example.com/page".to_string(), PAGE.to_string()),
            ("https://example.com/media.js".to_string(), MEDIA.to_string()),
        ]
        .into_iter()
        .collect(),
    )
}

#[test]
fn run_extracts_everything() {
    let ws = Workshop::new(client());
    let (first, second, pair, resources) = run("https://example.com/page", &ws);
    assert_eq!(first, vec![Ok("meta a".to_string())]);
    assert_eq!(second, vec![Ok("meta b".to_string())]);
    assert_eq!(pair, vec![Ok("embedded".to_string()), Ok("other".to_string())]);
    let expected: Vec<Result<String, _>> = ["aa", "ab", "ac", "ba", "bb", "bc"]
        .iter()
        .map(|s| Ok(format!("https://example.com/r/{}", s)))
        .collect();
    assert_eq!(resources, expected);
}

#[test]
fn run_passes_on_a_failed_fetch() {
    let ws = Workshop::new(Pages(HashMap::new()));
    let (first, second, pair, resources) = run_checked("https://example.com/page", &ws).unwrap();
    assert_eq!(first.len(), 1);
    assert_eq!(second.len(), 1);
    assert_eq!(resources.len(), 1);
    assert_eq!(pair.len(), 2);
    match &first[0] {
        Err(JsonStringValueError::Upstream(IndexValueError::Upstream(IndexValueError::Upstream(_)))) => {}
        other => panic!("unexpected {:?}", other),
    }
    match &pair[1] {
        Err(EitherError::B(workshop::errors::HtmlContentValueError::Upstream(WebpageValueError::Http(
            ClientError::Generic(m),
        )))) => assert_eq!(m, "404 https://example.com/page"),
        other => panic!("unexpected {:?}", other),
    }
}

struct Recording {
    pages: HashMap<String, String>,
    asked: std::cell::RefCell<Vec<String>>,
}

impl Client for Recording {
    fn get(&self, url: &str) -> Result<String, ClientError> {
        self.asked.borrow_mut().push(url.to_string());
        self.pages.get(url).cloned().ok_or_else(|| ClientError::Generic(format!("404 {}", url)))
    }
}

fn recording(entries: &[(&str, &str)]) -> Recording {
    Recording {
        pages: entries.iter().map(|(k, v)| (k.to_string(), v.to_string())).collect(),
        asked: std::cell::RefCell::new(Vec::new()),
    }
}

#[test]
fn run_asks_for_the_page_then_the_resource() {
    let page = "<i class=class data-foobar=\"{'x':{'y':'/j'}}\"></i><selector>{\"foo\":\"F\"}</selector><b class=other-class> O </b>";
    let media = "f({\"x\":{\"a\":{\"a\":\"1\",\"b\":\"2\",\"c\":\"3\"},\"b\":{\"a\":\"4\",\"b\":\"5\",\"c\":\"6\"}},\"y\":{\"a\":\"A\",\"b\":\"B\"}})";
    let ws = Workshop::new(recording(&[("http://h/p", page), ("http://h/j", media)]));
    let (o0, o1, o2, o3) = run("http://h/p", &ws);
    assert_eq!(o0, vec![Ok("A".to_string())]);
    assert_eq!(o1, vec![Ok("B".to_string())]);
    assert_eq!(o2, vec![Ok("F".to_string()), Ok("O".to_string())]);
    let expected: Vec<Result<String, _>> =
        (1..=6).map(|i| Ok(format!("http://h/{}", i))).collect();
    assert_eq!(o3, expected);
}

#[test]
fn run_without_class_element_reports_it_missing() {
    let page = "<p>nothing here</p>";
    let client = recording(&[("http://h/p", page)]);
    let ws = Workshop::new(client);
    let (o0, _o1, _o2, o3) = run("http://h/p", &ws);
    assert_eq!(o0.len(), 1);
    assert_eq!(o3.len(), 1);
    let text = format!("{:?}", o0[0]);
    assert!(text.contains("ElementMissing(\".class\""));
    assert!(text.contains("nothing here"));
}
