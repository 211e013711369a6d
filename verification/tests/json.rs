use workshop::errors::{
    IndexValueError, JsValueError, JsonStringValueError, JsonValueError, JsonpValueError,
};
use workshop::json::{get_field, Json};
use workshop::stages::{index, indices, js, json, json_string, jsonp};

fn text(s: &str) -> Result<String, String> {
    Ok(s.to_string())
}

fn object(fields: Vec<(&str, Json)>) -> Json {
    Json::Object(fields.into_iter().map(|(k, v)| (k.to_string(), v)).collect())
}

fn string(s: &str) -> Json {
    Json::String(s.to_string())
}

#[test]
fn json_parses_each_text() {
    let out = json(vec![text("{\"a\": [1, true, null, \"s\", 1.5]}"), Err("up".to_string())]);
    assert_eq!(
        out,
        vec![
            Ok(object(vec![(
                "a",
                Json::Array(vec![
                    Json::Number("1".to_string()),
                    Json::Bool(true),
                    Json::Null,
                    string("s"),
                    Json::Number("1.5".to_string()),
                ]),
            )])),
            Err(JsonValueError::Upstream("up".to_string())),
        ]
    );
}

#[test]
fn json_reports_what_does_not_parse() {
    let out = json(vec![text("{")]);
    assert_eq!(out.len(), 1);
    match &out[0] {
        Err(JsonValueError::NotJson(t, m)) => {
            assert_eq!(t, "{");
            assert!(m.contains("EOF"));
        }
        other => panic!("unexpected {:?}", other),
    }
}

#[test]
fn js_swaps_quotes_before_parsing() {
    let out = js(vec![text("{'a': 'b'}")]);
    assert_eq!(out, vec![Ok(object(vec![("a", string("b"))]))]);
    let out = js(vec![text("{'a': }")]);
    match &out[0] {
        Err(JsValueError::NotJs(t, _)) => assert_eq!(t, "{\"a\": }"),
        other => panic!("unexpected {:?}", other),
    }
    assert_eq!(
        js(vec![Err::<String, String>("e".to_string())]),
        vec![Err(JsValueError::Upstream("e".to_string()))]
    );
}

#[test]
fn jsonp_reads_the_argument_of_the_call() {
    let out = jsonp(vec![text("cb({'a': 1});")]);
    assert_eq!(out, vec![Ok(object(vec![("a", Json::Number("1".to_string()))]))]);
}

#[test]
fn jsonp_reports_text_that_is_no_call() {
    let out = jsonp(vec![text("nope")]);
    assert_eq!(
        out,
        vec![Err(JsonpValueError::NotJsonp(
            "nope".to_string(),
            "Could not find JSONP wrapping".to_string()
        ))]
    );
    let out = jsonp(vec![text("cb({'a');")]);
    match &out[0] {
        Err(JsonpValueError::NotJsonp(t, m)) => {
            assert_eq!(t, "{\"a\"");
            assert!(!m.is_empty());
        }
        other => panic!("unexpected {:?}", other),
    }
}

#[test]
fn jsonp_of_a_call_is_js_of_its_argument() {
    for argument in ["{'a': [1]}", "'s'", "{oops"] {
        let call = format!("cb({});", argument);
        let a: Vec<Result<String, String>> = vec![Ok(call)];
        let b: Vec<Result<String, String>> = vec![Ok(argument.to_string())];
        let from_jsonp = jsonp(a);
        let from_js = js(b);
        match (&from_jsonp[0], &from_js[0]) {
            (Ok(x), Ok(y)) => assert_eq!(x, y),
            (Err(JsonpValueError::NotJsonp(t1, m1)), Err(JsValueError::NotJs(t2, m2))) => {
                assert_eq!(t1, t2);
                assert_eq!(m1, m2);
            }
            other => panic!("unexpected {:?}", other),
        }
    }
}

#[test]
fn index_reads_a_field() {
    let value = object(vec![("x", Json::Number("1".to_string()))]);
    let out = index(vec![Ok::<Json, String>(value)], "x");
    assert_eq!(out, vec![Ok(Json::Number("1".to_string()))]);
}

#[test]
fn index_reports_missing_key_and_wrong_type() {
    let fields = vec![("x".to_string(), Json::Null)];
    let out = index(
        vec![Ok::<Json, String>(Json::Object(fields.clone_fields())), Ok(Json::Bool(false)), Err("u".to_string())],
        "y",
    );
    assert_eq!(
        out,
        vec![
            Err(IndexValueError::MissingKey("y".to_string(), fields)),
            Err(IndexValueError::WrongType("an object", Json::Bool(false))),
            Err(IndexValueError::Upstream("u".to_string())),
        ]
    );
}

trait CloneFields {
    fn clone_fields(&self) -> Vec<(String, Json)>;
}

impl CloneFields for Vec<(String, Json)> {
    fn clone_fields(&self) -> Vec<(String, Json)> {
        workshop::json::copy_fields(self)
    }
}

#[test]
fn index_takes_the_first_field_of_a_name() {
    let fields = vec![
        ("k".to_string(), Json::Number("1".to_string())),
        ("k".to_string(), Json::Number("2".to_string())),
    ];
    assert_eq!(get_field(&fields, "k"), Some(Json::Number("1".to_string())));
    assert_eq!(get_field(&fields, "z"), None);
}

#[test]
fn indices_reads_one_item_per_key() {
    let value = object(vec![("a", Json::Number("1".to_string()))]);
    let out = indices(vec![Ok::<Json, String>(value), Ok(Json::Null), Err("u".to_string())], &["a", "b"]);
    assert_eq!(out.len(), 4);
    assert_eq!(out[0], Ok(Json::Number("1".to_string())));
    match &out[1] {
        Err(IndexValueError::MissingKey(k, _)) => assert_eq!(k, "b"),
        other => panic!("unexpected {:?}", other),
    }
    assert_eq!(out[2], Err(IndexValueError::WrongType("an object", Json::Null)));
    assert_eq!(out[3], Err(IndexValueError::Upstream("u".to_string())));
    let none = indices(vec![Ok::<Json, String>(object(vec![]))], &[]);
    assert!(none.is_empty());
}

#[test]
fn indices_of_one_key_is_index() {
    let make = || {
        vec![
            Ok::<Json, String>(object(vec![("a", string("s"))])),
            Ok(object(vec![("b", Json::Null)])),
            Ok(Json::Bool(true)),
            Err("u".to_string()),
        ]
    };
    assert_eq!(indices(make(), &["a"]), index(make(), "a"));
}

#[test]
fn json_string_reads_strings_only() {
    let out = json_string(vec![Ok::<Json, String>(string("s")), Ok(Json::Number("2".to_string())), Err("u".to_string())]);
    assert_eq!(
        out,
        vec![
            Ok("s".to_string()),
            Err(JsonStringValueError::WrongType("a string", Json::Number("2".to_string()))),
            Err(JsonStringValueError::Upstream("u".to_string())),
        ]
    );
}

#[test]
fn indexed_string_reads_back() {
    let value = object(vec![("k", string("v"))]);
    let out = json_string(index(vec![Ok::<Json, String>(value)], "k"));
    assert_eq!(out, vec![Ok("v".to_string())]);
}

#[test]
fn copies_equal_the_original() {
    let value = object(vec![("a", Json::Array(vec![string("x"), Json::Null])), ("b", Json::Bool(true))]);
    assert_eq!(value.copy(), value);
}
