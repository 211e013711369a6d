use std::collections::HashMap;
use workshop::errors::{EitherError, WebpageValueError};
use workshop::http::{Client, ClientError};
use workshop::items::{constant_items, duplicate_items, single_item, Never};
use workshop::stages::{either, http_get, webpage_item};
use workshop::workshop::{Workshop, WorkshopValue};

#[test]
fn copy_value() {
    let _ws = Workshop::new("");
}

struct Pages(HashMap<String, String>);

impl Client for Pages {
    fn get(&self, url: &str) -> Result<String, ClientError> {
        match self.0.get(url) {
            Some(body) => Ok(body.clone()),
            None => Err(ClientError::Generic(format!("404 {}", url))),
        }
    }
}

fn pages(entries: &[(&str, &str)]) -> Pages {
    Pages(entries.iter().map(|(k, v)| (k.to_string(), v.to_string())).collect())
}

#[test]
fn http_get_fetches_each_address() {
    let client = pages(&[("https://a/", "page a")]);
    let out = http_get(
        &client,
        vec![Ok("https://a/".to_string()), Err("e".to_string()), Ok("https://b/".to_string())],
    );
    assert_eq!(
        out,
        vec![
            Ok("page a".to_string()),
            Err(WebpageValueError::Upstream("e".to_string())),
            Err(WebpageValueError::Http(ClientError::Generic("404 https://b/".to_string()))),
        ]
    );
}

#[test]
fn webpage_item_follows_the_response() {
    let ok: Result<String, String> = Ok("u".to_string());
    assert_eq!(webpage_item(ok, Ok("body".to_string())), Ok("body".to_string()));
    let ok: Result<String, String> = Ok("u".to_string());
    assert_eq!(
        webpage_item(ok, Err(ClientError::Generic("down".to_string()))),
        Err(WebpageValueError::Http(ClientError::Generic("down".to_string())))
    );
    let err: Result<String, String> = Err("e".to_string());
    assert_eq!(
        webpage_item(err, Ok("body".to_string())),
        Err(WebpageValueError::Upstream("e".to_string()))
    );
}

#[test]
fn client_error_message() {
    assert_eq!(ClientError::Generic("m".to_string()).to_string(), "m");
}

#[test]
fn either_yields_first_then_second() {
    let a: Vec<Result<String, String>> = vec![Ok("a1".to_string()), Err("ea".to_string())];
    let b: Vec<Result<String, u64>> = vec![Err(7), Ok("b1".to_string())];
    assert_eq!(
        either(a, b),
        vec![
            Ok("a1".to_string()),
            Err(EitherError::A("ea".to_string())),
            Err(EitherError::B(7)),
            Ok("b1".to_string()),
        ]
    );
}

#[test]
fn constant_values_cannot_fail() {
    let items: Vec<Result<String, Never>> = constant_items(vec!["x".to_string(), "y".to_string()]);
    assert_eq!(items, vec![Ok("x".to_string()), Ok("y".to_string())]);
    let one: Vec<Result<String, Never>> = single_item("z".to_string());
    assert_eq!(duplicate_items(&one), one);
}

#[test]
fn workshop_values_chain_stages() {
    let client = pages(&[(
        "https://site/",
        "<html><body><div class=\"k\" data-j=\"{'x': 'y'}\"></div><i>{\"n\": \"v\"}</i></body></html>",
    )]);
    let ws = Workshop::new(client);
    let address: Vec<Result<String, Never>> = single_item("https://site/".to_string());
    let page = ws.http_get(&address).html();
    let x = page.element(".k").attr("data-j").js().index("x").json_string();
    assert_eq!(x.get(), &vec![Ok("y".to_string())]);
    let n = page.content_of("i").json().index("n").json_string();
    assert_eq!(n.get(), &vec![Ok("v".to_string())]);
    let both = page.content_of("i").json().indices(&["n", "n"]).json_string();
    assert_eq!(both.get(), &vec![Ok("v".to_string()), Ok("v".to_string())]);
    let resolved = x.relative_to(single_item::<String, Never>("https://site/a/".to_string()));
    assert_eq!(resolved.get(), &vec![Ok("https://site/a/y".to_string())]);
    let jsonp = WorkshopValue::new(single_item::<String, Never>("cb({'q': 'r'})".to_string()), &ws).jsonp();
    assert_eq!(jsonp.index("q").json_string().get(), &vec![Ok("r".to_string())]);
}

#[test]
fn workshop_checked_selection() {
    let ws = Workshop::new(pages(&[]));
    let input: Vec<Result<workshop::html::Document, String>> =
        workshop::stages::html(vec![Ok("<p class=\"a\">x</p>".to_string())]);
    assert!(ws.element_checked(input, "[[").is_none());
    let input: Vec<Result<workshop::html::Document, String>> =
        workshop::stages::html(vec![Ok("<p class=\"a\">x</p>".to_string())]);
    let v = ws.content_of_checked(input, ".a").unwrap();
    assert_eq!(v.get(), &vec![Ok("x".to_string())]);
    let page = WorkshopValue::new(
        workshop::stages::html(vec![Ok::<String, String>("<p class=\"a\">x</p>".to_string())]),
        &ws,
    );
    assert!(page.element_checked("[[").is_none());
    assert!(page.content_of_checked("[[").is_none());
    assert_eq!(page.element_checked(".a").unwrap().get().len(), 1);
    assert_eq!(page.content_of_checked(".a").unwrap().get(), &vec![Ok("x".to_string())]);
}
