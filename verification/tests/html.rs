use workshop::errors::{HtmlAttrValueError, HtmlContentValueError, HtmlElementValueError};
use workshop::html::{Attr, Document, HtmlElement};
use workshop::stages::{attr, content_of, content_of_checked, element, element_checked, html};

const PAGE: &str = "<html><body><div class=\"class\" data-foobar=\"u\">one</div><p class=\"class\">two</p><span class=\"c\">  hi there  </span></body></html>";

fn docs(sources: &[&str]) -> Vec<Result<Document, String>> {
    html(sources.iter().map(|s| Ok(s.to_string())).collect())
}

#[test]
fn html_keeps_each_text() {
    let out = html(vec![Ok::<String, String>("<p>x</p>".to_string()), Err("e".to_string())]);
    assert_eq!(out, vec![Ok(Document { source: "<p>x</p>".to_string() }), Err("e".to_string())]);
}

#[test]
fn element_selects_in_document_order() {
    let out = element(docs(&[PAGE]), ".class");
    assert_eq!(out.len(), 2);
    match (&out[0], &out[1]) {
        (Ok(a), Ok(b)) => {
            assert_eq!(a.name, "div");
            assert_eq!(b.name, "p");
            assert_eq!(a.attr("data-foobar"), Some("u".to_string()));
            assert_eq!(b.attr("data-foobar"), None);
        }
        other => panic!("unexpected {:?}", other),
    }
}

#[test]
fn element_reports_a_document_without_match() {
    let out = element(docs(&[PAGE]), ".nothing");
    assert_eq!(out.len(), 1);
    match &out[0] {
        Err(HtmlElementValueError::ElementMissing(selector, root)) => {
            assert_eq!(*selector, ".nothing");
            assert!(root.starts_with("<html>"));
            assert!(root.contains("hi there"));
        }
        other => panic!("unexpected {:?}", other),
    }
    let out = element(vec![Err::<Document, String>("e".to_string())], ".x");
    assert_eq!(out, vec![Err(HtmlElementValueError::Upstream("e".to_string()))]);
}

#[test]
fn every_document_answers() {
    let out = element(docs(&[PAGE, "<p>none</p>", PAGE]), "div");
    assert_eq!(out.len(), 3);
    let out = content_of(docs(&[PAGE, "<p>none</p>"]), "span");
    assert_eq!(out.len(), 2);
}

#[test]
fn content_of_trims_inner_html() {
    let out = content_of(docs(&[PAGE]), ".c");
    assert_eq!(out, vec![Ok("hi there".to_string())]);
    let out = content_of(docs(&["<div><b>bold</b> text </div>"]), "div");
    assert_eq!(out, vec![Ok("<b>bold</b> text".to_string())]);
    let out = content_of(docs(&[PAGE]), "table");
    match &out[0] {
        Err(HtmlContentValueError::ElementMissing(selector, _)) => assert_eq!(*selector, "table"),
        other => panic!("unexpected {:?}", other),
    }
}

#[test]
fn checked_selection_refuses_a_bad_selector() {
    assert!(element_checked(docs(&[PAGE]), "[[").is_none());
    assert!(content_of_checked(docs(&[PAGE]), "[[").is_none());
    let none: Vec<Result<Document, String>> = vec![Err("e".to_string())];
    assert_eq!(
        element_checked(none, "[["),
        Some(vec![Err(HtmlElementValueError::Upstream("e".to_string()))])
    );
    assert_eq!(content_of_checked(docs(&[PAGE]), ".c"), Some(vec![Ok("hi there".to_string())]));
}

fn div(attrs: Vec<(Option<&str>, &str, &str, &str)>) -> HtmlElement {
    HtmlElement {
        name: "div".to_string(),
        attrs: attrs
            .into_iter()
            .map(|(p, ns, n, v)| Attr {
                name: n.to_string(),
                value: v.to_string(),
                prefix: p.map(|p| p.to_string()),
                namespace: ns.to_string(),
            })
            .collect(),
    }
}

#[test]
fn attr_reads_the_attribute() {
    let out = attr(
        vec![
            Ok::<HtmlElement, String>(div(vec![
                (Some("xlink"), "http://www.w3.org/1999/xlink", "href", "a"),
                (None, "urn:x", "href", "n"),
                (None, "", "href", "b"),
            ])),
            Ok(div(vec![])),
            Err("e".to_string()),
        ],
        "href",
    );
    assert_eq!(
        out,
        vec![
            Ok("b".to_string()),
            Err(HtmlAttrValueError::AttrMissing(div(vec![]), "href")),
            Err(HtmlAttrValueError::Upstream("e".to_string())),
        ]
    );
}

#[test]
fn parsed_elements_keep_their_attributes() {
    let out = element(docs(&["<a href=\"/x\" title=\"t\">l</a>"]), "a");
    match &out[0] {
        Ok(e) => {
            assert_eq!(e.attr("href"), Some("/x".to_string()));
            assert_eq!(e.attr("title"), Some("t".to_string()));
            assert_eq!(e.attrs.len(), 2);
            assert_eq!(e.duplicate_for_test(), *e);
        }
        other => panic!("unexpected {:?}", other),
    }
}

trait DupForTest {
    fn duplicate_for_test(&self) -> Self;
}

impl DupForTest for HtmlElement {
    fn duplicate_for_test(&self) -> Self {
        workshop::items::Duplicate::duplicate(self)
    }
}

#[test]
fn prefixed_attributes_are_not_found_by_local_name() {
    let out = element(
        docs(&["<svg><a xlink:href=\"/x\" href=\"/y\"></a></svg>"]),
        "a",
    );
    match &out[0] {
        Ok(e) => {
            assert_eq!(e.attr("href"), Some("/y".to_string()));
            assert!(e.attrs.iter().any(|a| a.prefix.as_deref() == Some("xlink") && a.name == "href"));
        }
        other => panic!("unexpected {:?}", other),
    }
}
