//! The stages of the pipeline. Each reads the items of a value and yields the
//! items of a new one; an error read is passed on, wrapped in `Upstream`.
//!
//! Each stage states its result over models: `spec_<stage>` takes the models
//! of the items read and gives the models of the items yielded.
use crate::errors::{
    EitherError, HtmlAttrErrorModel, HtmlAttrValueError, HtmlContentErrorModel,
    HtmlContentValueError, HtmlElementErrorModel, HtmlElementValueError, IndexErrorModel,
    IndexValueError, JsValueError, JsonStringErrorModel, JsonStringValueError, JsonValueError,
    JsonpValueError, ParseErrorModel, RelativeToError, RelativeToErrorModel, WebpageErrorModel,
    WebpageValueError,
};
use crate::html::{
    elements_model, select_in, selector_is_valid, spec_root_html, spec_selected_elements,
    spec_selected_inner_html, spec_selector_valid, strings_model, attr_value, Document,
    ElementModel, HtmlElement,
};
use crate::http::{Client, ClientError, ClientErrorModel};
use crate::items::{items_model, lemma_flat_map_take, lemma_items_model_add, lemma_items_model_push, result_model, Duplicate};
use crate::json::{copy_fields, fields_model, get_field, lookup, parse_json, spec_parse_json, Json, JsonModel};
use crate::links::{join_url, spec_join_url};
use crate::text::{jsonp_argument, spec_jsonp_argument, spec_swap_quotes, spec_trim, swap_quotes, trim};
use vstd::prelude::*;

verus! {

broadcast use vstd::seq::group_seq_axioms, vstd::seq_lib::group_seq_properties;

/// The items of a value: the results it yields, in order.
pub type Items<T, E> = Vec<Result<T, E>>;

/// The model of the items of a value.
pub type ItemsModel<T, E> = Seq<Result<T, E>>;

// ---------------------------------------------------------------- html

/// Reads each text as an HTML document; errors pass through unchanged.
pub fn html<E: View>(input: Items<String, E>) -> (r: Items<Document, E>)
    ensures
        items_model(r@) == items_model(input@),
{
    let mut out: Items<Document, E> = Vec::new();
    for item in it: input.into_iter()
        invariant
            it.seq() == input@,
            items_model(out@) == items_model(input@).take(it.index() as int),
    {
        let ghost i = it.index();
        let o = match item {
            Ok(source) => Ok(Document { source }),
            Err(e) => Err(e),
        };
        proof {
            lemma_items_model_push(out@, o);
            assert(items_model(input@).take(i + 1) =~= items_model(input@).take(i).push(
                result_model(input@[i]),
            ));
        }
        out.push(o);
    }
    assert(items_model(input@).take(input@.len() as int) =~= items_model(input@));
    out
}

// ---------------------------------------------------------------- http_get

/// The page fetched for one address, given the client's response.
pub open spec fn webpage_output<U>(
    item: Result<Seq<char>, U>,
    response: Result<Seq<char>, ClientErrorModel>,
) -> Result<Seq<char>, WebpageErrorModel<U>> {
    match item {
        Err(u) => Err(WebpageErrorModel::Upstream(u)),
        Ok(_) => match response {
            Ok(body) => Ok(body),
            Err(c) => Err(WebpageErrorModel::Http(c)),
        },
    }
}

/// The pages fetched for the addresses, given one response per address.
pub open spec fn spec_http_get<U>(
    input: ItemsModel<Seq<char>, U>,
    responses: Seq<Result<Seq<char>, ClientErrorModel>>,
) -> ItemsModel<Seq<char>, WebpageErrorModel<U>> {
    Seq::new(input.len(), |i: int| webpage_output(input[i], responses[i]))
}

/// The page for one address, given the client's response to it.
pub fn webpage_item<E: View>(address: Result<String, E>, response: Result<String, ClientError>) -> (r:
    Result<String, WebpageValueError<E>>)
    ensures
        result_model(r) == webpage_output(result_model(address), result_model(response)),
{
    match address {
        Err(e) => Err(WebpageValueError::Upstream(e)),
        Ok(_) => match response {
            Ok(body) => Ok(body),
            Err(c) => Err(WebpageValueError::Http(c)),
        },
    }
}

/// Whether each response is one `client` may give for the address at its
/// position, where an address was read.
pub open spec fn answered<C: Client, U>(
    client: C,
    input: ItemsModel<Seq<char>, U>,
    responses: Seq<Result<Seq<char>, ClientErrorModel>>,
) -> bool {
    forall|i: int|
        0 <= i < input.len() && #[trigger] input[i] is Ok ==> client.answers(
            input[i]->Ok_0,
            responses[i],
        )
}

/// Fetches the page at each address with `client`, once per address read,
/// in order: each address yields the client's answer for it (the page, or
/// the client's error); an error read yields itself, wrapped, and is not
/// fetched.
pub fn http_get<C: Client, E: View>(client: &C, input: Items<String, E>) -> (r: Items<
    String,
    WebpageValueError<E>,
>)
    ensures
        exists|responses: Seq<Result<Seq<char>, ClientErrorModel>>|
            responses.len() == input.len() && answered(*client, items_model(input@), responses)
                && items_model(r@) == #[trigger] spec_http_get(items_model(input@), responses),
{
    let mut out: Items<String, WebpageValueError<E>> = Vec::new();
    let ghost mut responses: Seq<Result<Seq<char>, ClientErrorModel>> = Seq::empty();
    for item in it: input.into_iter()
        invariant
            it.seq() == input@,
            responses.len() == it.index(),
            answered(*client, items_model(input@).take(it.index() as int), responses),
            items_model(out@) == spec_http_get(
                items_model(input@).take(it.index() as int),
                responses,
            ),
    {
        let ghost i = it.index();
        let ghost response: Result<Seq<char>, ClientErrorModel>;
        let o = match item {
            Ok(address) => {
                let answer = client.get(address.as_str());
                proof {
                    response = result_model(answer);
                    assert(response == crate::http::client_result_model(answer));
                }
                webpage_item(Ok::<String, E>(address), answer)
            },
            Err(e) => {
                proof {
                    response = Ok(Seq::empty());
                }
                Err(WebpageValueError::Upstream(e))
            },
        };
        proof {
            lemma_items_model_push(out@, o);
            let m = items_model(input@);
            assert(m.take(i + 1) =~= m.take(i).push(m[i]));
            assert(spec_http_get(m.take(i + 1), responses.push(response)) =~= spec_http_get(
                m.take(i),
                responses,
            ).push(webpage_output(m[i], response)));
            assert forall|k: int|
                0 <= k < m.take(i + 1).len() && #[trigger] m.take(i + 1)[k] is Ok implies client.answers(
                m.take(i + 1)[k]->Ok_0,
                responses.push(response)[k],
            ) by {
                if k < i {
                    assert(m.take(i + 1)[k] == m.take(i)[k]);
                }
            }
            responses = responses.push(response);
        }
        out.push(o);
    }
    assert(items_model(input@).take(input@.len() as int) =~= items_model(input@));
    out
}

// ---------------------------------------------------------------- attr

/// The attribute `name` of one element.
pub open spec fn attr_output<U>(item: Result<ElementModel, U>, name: Seq<char>) -> Result<
    Seq<char>,
    HtmlAttrErrorModel<U>,
> {
    match item {
        Err(u) => Err(HtmlAttrErrorModel::Upstream(u)),
        Ok(element) => match attr_value(element.attrs, name) {
            Some(v) => Ok(v),
            None => Err(HtmlAttrErrorModel::AttrMissing(element, name)),
        },
    }
}

pub open spec fn spec_attr<U>(input: ItemsModel<ElementModel, U>, name: Seq<char>) -> ItemsModel<
    Seq<char>,
    HtmlAttrErrorModel<U>,
> {
    input.map_values(|item: Result<ElementModel, U>| attr_output(item, name))
}

fn attr_item<E: View>(item: Result<HtmlElement, E>, name: &'static str) -> (r: Result<
    String,
    HtmlAttrValueError<E>,
>)
    ensures
        result_model(r) == attr_output(result_model(item), name@),
{
    match item {
        Err(e) => Err(HtmlAttrValueError::Upstream(e)),
        Ok(element) => match element.attr(name) {
            Some(v) => Ok(v),
            None => Err(HtmlAttrValueError::AttrMissing(element, name)),
        },
    }
}

/// Reads the attribute `name` of each element: its value, or `AttrMissing`
/// with the element where it has no such attribute.
pub fn attr<E: View>(input: Items<HtmlElement, E>, name: &'static str) -> (r: Items<
    String,
    HtmlAttrValueError<E>,
>)
    ensures
        items_model(r@) == spec_attr(items_model(input@), name@),
{
    let mut out: Items<String, HtmlAttrValueError<E>> = Vec::new();
    for item in it: input.into_iter()
        invariant
            it.seq() == input@,
            items_model(out@) == spec_attr(items_model(input@).take(it.index() as int), name@),
    {
        let ghost i = it.index();
        let o = attr_item(item, name);
        proof {
            lemma_items_model_push(out@, o);
            let m = items_model(input@);
            assert(m.take(i + 1) =~= m.take(i).push(m[i]));
            assert(spec_attr(m.take(i + 1), name@) =~= spec_attr(m.take(i), name@).push(
                attr_output(m[i], name@),
            ));
        }
        out.push(o);
    }
    assert(items_model(input@).take(input@.len() as int) =~= items_model(input@));
    out
}

// ---------------------------------------------------------------- json, js, jsonp

/// One text parsed as JSON.
pub open spec fn json_output<U>(item: Result<Seq<char>, U>) -> Result<JsonModel, ParseErrorModel<U>> {
    match item {
        Err(u) => Err(ParseErrorModel::Upstream(u)),
        Ok(text) => match spec_parse_json(text) {
            Ok(j) => Ok(j),
            Err(m) => Err(ParseErrorModel::NotParsed(text, m)),
        },
    }
}

pub open spec fn spec_json<U>(input: ItemsModel<Seq<char>, U>) -> ItemsModel<
    JsonModel,
    ParseErrorModel<U>,
> {
    input.map_values(|item: Result<Seq<char>, U>| json_output(item))
}

/// One text read as a JavaScript value: its single quotes made double, then
/// parsed as JSON.
pub open spec fn js_output<U>(item: Result<Seq<char>, U>) -> Result<JsonModel, ParseErrorModel<U>> {
    match item {
        Err(u) => Err(ParseErrorModel::Upstream(u)),
        Ok(text) => {
            let swapped = spec_swap_quotes(text);
            match spec_parse_json(swapped) {
                Ok(j) => Ok(j),
                Err(m) => Err(ParseErrorModel::NotParsed(swapped, m)),
            }
        },
    }
}

pub open spec fn spec_js<U>(input: ItemsModel<Seq<char>, U>) -> ItemsModel<
    JsonModel,
    ParseErrorModel<U>,
> {
    input.map_values(|item: Result<Seq<char>, U>| js_output(item))
}

/// The message of a text that is no JSONP call.
pub open spec fn no_jsonp_wrapping() -> Seq<char> {
    "Could not find JSONP wrapping"@
}

/// One text read as JSONP: the argument of the call, read as a JavaScript value.
pub open spec fn jsonp_output<U>(item: Result<Seq<char>, U>) -> Result<
    JsonModel,
    ParseErrorModel<U>,
> {
    match item {
        Err(u) => Err(ParseErrorModel::Upstream(u)),
        Ok(text) => match spec_jsonp_argument(text) {
            None => Err(ParseErrorModel::NotParsed(text, no_jsonp_wrapping())),
            Some(argument) => {
                let swapped = spec_swap_quotes(argument);
                match spec_parse_json(swapped) {
                    Ok(j) => Ok(j),
                    Err(m) => Err(ParseErrorModel::NotParsed(swapped, m)),
                }
            },
        },
    }
}

pub open spec fn spec_jsonp<U>(input: ItemsModel<Seq<char>, U>) -> ItemsModel<
    JsonModel,
    ParseErrorModel<U>,
> {
    input.map_values(|item: Result<Seq<char>, U>| jsonp_output(item))
}

fn json_item<E: View>(item: Result<String, E>) -> (r: Result<Json, JsonValueError<E>>)
    ensures
        result_model(r) == json_output(result_model(item)),
{
    match item {
        Err(e) => Err(JsonValueError::Upstream(e)),
        Ok(text) => match parse_json(text.as_str()) {
            Ok(j) => Ok(j),
            Err(m) => Err(JsonValueError::NotJson(text, m)),
        },
    }
}

fn js_item<E: View>(item: Result<String, E>) -> (r: Result<Json, JsValueError<E>>)
    ensures
        result_model(r) == js_output(result_model(item)),
{
    match item {
        Err(e) => Err(JsValueError::Upstream(e)),
        Ok(text) => {
            let swapped = swap_quotes(text.as_str());
            match parse_json(swapped.as_str()) {
                Ok(j) => Ok(j),
                Err(m) => Err(JsValueError::NotJs(swapped, m)),
            }
        },
    }
}

fn jsonp_item<E: View>(item: Result<String, E>) -> (r: Result<Json, JsonpValueError<E>>)
    ensures
        result_model(r) == jsonp_output(result_model(item)),
{
    match item {
        Err(e) => Err(JsonpValueError::Upstream(e)),
        Ok(text) => match jsonp_argument(text.as_str()) {
            None => {
                let message = "Could not find JSONP wrapping".to_owned();
                Err(JsonpValueError::NotJsonp(text, message))
            },
            Some(argument) => {
                let swapped = swap_quotes(argument.as_str());
                match parse_json(swapped.as_str()) {
                    Ok(j) => Ok(j),
                    Err(m) => Err(JsonpValueError::NotJsonp(swapped, m)),
                }
            },
        },
    }
}

/// Parses each text as JSON: the value, or `NotJson` with the text and the
/// parser's message.
pub fn json<E: View>(input: Items<String, E>) -> (r: Items<Json, JsonValueError<E>>)
    ensures
        items_model(r@) == spec_json(items_model(input@)),
{
    let mut out: Items<Json, JsonValueError<E>> = Vec::new();
    for item in it: input.into_iter()
        invariant
            it.seq() == input@,
            items_model(out@) == spec_json(items_model(input@).take(it.index() as int)),
    {
        let ghost i = it.index();
        let o = json_item(item);
        proof {
            lemma_items_model_push(out@, o);
            let m = items_model(input@);
            assert(m.take(i + 1) =~= m.take(i).push(m[i]));
            assert(spec_json(m.take(i + 1)) =~= spec_json(m.take(i)).push(json_output(m[i])));
        }
        out.push(o);
    }
    assert(items_model(input@).take(input@.len() as int) =~= items_model(input@));
    out
}

/// Reads each text as a JavaScript value: single quotes become double
/// quotes, then the text is parsed as JSON; `NotJs` gives the text as parsed.
pub fn js<E: View>(input: Items<String, E>) -> (r: Items<Json, JsValueError<E>>)
    ensures
        items_model(r@) == spec_js(items_model(input@)),
{
    let mut out: Items<Json, JsValueError<E>> = Vec::new();
    for item in it: input.into_iter()
        invariant
            it.seq() == input@,
            items_model(out@) == spec_js(items_model(input@).take(it.index() as int)),
    {
        let ghost i = it.index();
        let o = js_item(item);
        proof {
            lemma_items_model_push(out@, o);
            let m = items_model(input@);
            assert(m.take(i + 1) =~= m.take(i).push(m[i]));
            assert(spec_js(m.take(i + 1)) =~= spec_js(m.take(i)).push(js_output(m[i])));
        }
        out.push(o);
    }
    assert(items_model(input@).take(input@.len() as int) =~= items_model(input@));
    out
}

/// Reads each text as JSONP: the argument of the call `name(...)`, read as a
/// JavaScript value; `NotJsonp` where the text is no such call, or where the
/// argument does not parse.
pub fn jsonp<E: View>(input: Items<String, E>) -> (r: Items<Json, JsonpValueError<E>>)
    ensures
        items_model(r@) == spec_jsonp(items_model(input@)),
{
    let mut out: Items<Json, JsonpValueError<E>> = Vec::new();
    for item in it: input.into_iter()
        invariant
            it.seq() == input@,
            items_model(out@) == spec_jsonp(items_model(input@).take(it.index() as int)),
    {
        let ghost i = it.index();
        let o = jsonp_item(item);
        proof {
            lemma_items_model_push(out@, o);
            let m = items_model(input@);
            assert(m.take(i + 1) =~= m.take(i).push(m[i]));
            assert(spec_jsonp(m.take(i + 1)) =~= spec_jsonp(m.take(i)).push(jsonp_output(m[i])));
        }
        out.push(o);
    }
    assert(items_model(input@).take(input@.len() as int) =~= items_model(input@));
    out
}

// ---------------------------------------------------------------- index, json_string

/// The kind an object index needs.
pub open spec fn an_object() -> Seq<char> {
    "an object"@
}

/// The kind `json_string` needs.
pub open spec fn a_string() -> Seq<char> {
    "a string"@
}

/// The field `key` of one JSON value.
pub open spec fn index_output<U>(item: Result<JsonModel, U>, key: Seq<char>) -> Result<
    JsonModel,
    IndexErrorModel<U>,
> {
    match item {
        Err(u) => Err(IndexErrorModel::Upstream(u)),
        Ok(JsonModel::Object(fields)) => match lookup(fields, key) {
            Some(v) => Ok(v),
            None => Err(IndexErrorModel::MissingKey(key, fields)),
        },
        Ok(other) => Err(IndexErrorModel::WrongType(an_object(), other)),
    }
}

pub open spec fn spec_index<U>(input: ItemsModel<JsonModel, U>, key: Seq<char>) -> ItemsModel<
    JsonModel,
    IndexErrorModel<U>,
> {
    input.map_values(|item: Result<JsonModel, U>| index_output(item, key))
}

fn index_item<E: View>(item: Result<Json, E>, key: &'static str) -> (r: Result<
    Json,
    IndexValueError<E>,
>)
    ensures
        result_model(r) == index_output(result_model(item), key@),
{
    match item {
        Err(e) => Err(IndexValueError::Upstream(e)),
        Ok(Json::Object(fields)) => match get_field(&fields, key) {
            Some(v) => Ok(v),
            None => Err(IndexValueError::MissingKey(key.to_owned(), fields)),
        },
        Ok(other) => Err(IndexValueError::WrongType("an object", other)),
    }
}

/// Reads the field `key` of each JSON object: its value, `MissingKey` with
/// the object's fields where it has no such field, or `WrongType` where the
/// value is not an object.
pub fn index<E: View>(input: Items<Json, E>, key: &'static str) -> (r: Items<
    Json,
    IndexValueError<E>,
>)
    ensures
        items_model(r@) == spec_index(items_model(input@), key@),
{
    let mut out: Items<Json, IndexValueError<E>> = Vec::new();
    for item in it: input.into_iter()
        invariant
            it.seq() == input@,
            items_model(out@) == spec_index(items_model(input@).take(it.index() as int), key@),
    {
        let ghost i = it.index();
        let o = index_item(item, key);
        proof {
            lemma_items_model_push(out@, o);
            let m = items_model(input@);
            assert(m.take(i + 1) =~= m.take(i).push(m[i]));
            assert(spec_index(m.take(i + 1), key@) =~= spec_index(m.take(i), key@).push(
                index_output(m[i], key@),
            ));
        }
        out.push(o);
    }
    assert(items_model(input@).take(input@.len() as int) =~= items_model(input@));
    out
}

/// The string that one JSON value holds.
pub open spec fn json_string_output<U>(item: Result<JsonModel, U>) -> Result<
    Seq<char>,
    JsonStringErrorModel<U>,
> {
    match item {
        Err(u) => Err(JsonStringErrorModel::Upstream(u)),
        Ok(JsonModel::String(s)) => Ok(s),
        Ok(other) => Err(JsonStringErrorModel::WrongType(a_string(), other)),
    }
}

pub open spec fn spec_json_string<U>(input: ItemsModel<JsonModel, U>) -> ItemsModel<
    Seq<char>,
    JsonStringErrorModel<U>,
> {
    input.map_values(|item: Result<JsonModel, U>| json_string_output(item))
}

fn json_string_item<E: View>(item: Result<Json, E>) -> (r: Result<String, JsonStringValueError<E>>)
    ensures
        result_model(r) == json_string_output(result_model(item)),
{
    match item {
        Err(e) => Err(JsonStringValueError::Upstream(e)),
        Ok(Json::String(s)) => Ok(s),
        Ok(other) => Err(JsonStringValueError::WrongType("a string", other)),
    }
}

/// Reads the string each JSON value holds, or `WrongType` where it holds none.
pub fn json_string<E: View>(input: Items<Json, E>) -> (r: Items<String, JsonStringValueError<E>>)
    ensures
        items_model(r@) == spec_json_string(items_model(input@)),
{
    let mut out: Items<String, JsonStringValueError<E>> = Vec::new();
    for item in it: input.into_iter()
        invariant
            it.seq() == input@,
            items_model(out@) == spec_json_string(items_model(input@).take(it.index() as int)),
    {
        let ghost i = it.index();
        let o = json_string_item(item);
        proof {
            lemma_items_model_push(out@, o);
            let m = items_model(input@);
            assert(m.take(i + 1) =~= m.take(i).push(m[i]));
            assert(spec_json_string(m.take(i + 1)) =~= spec_json_string(m.take(i)).push(
                json_string_output(m[i]),
            ));
        }
        out.push(o);
    }
    assert(items_model(input@).take(input@.len() as int) =~= items_model(input@));
    out
}

// ---------------------------------------------------------------- element, content_of

/// Whether some item of `input` is a value rather than an error.
pub open spec fn has_value<T, E>(input: Seq<Result<T, E>>) -> bool {
    exists|i: int| 0 <= i < input.len() && #[trigger] input[i] is Ok
}

/// The elements `selector` selects in one document, or `ElementMissing` with
/// the HTML of its root element where it selects none.
pub open spec fn element_outputs<U>(item: Result<Seq<char>, U>, selector: Seq<char>) -> ItemsModel<
    ElementModel,
    HtmlElementErrorModel<U>,
> {
    match item {
        Err(u) => seq![Err(HtmlElementErrorModel::Upstream(u))],
        Ok(source) => {
            let selected = spec_selected_elements(source, selector);
            if selected.len() == 0 {
                seq![Err(HtmlElementErrorModel::ElementMissing(selector, spec_root_html(source)))]
            } else {
                selected.map_values(|e: ElementModel| Ok(e))
            }
        },
    }
}

pub open spec fn spec_element<U>(input: ItemsModel<Seq<char>, U>, selector: Seq<char>) -> ItemsModel<
    ElementModel,
    HtmlElementErrorModel<U>,
> {
    input.flat_map(|item: Result<Seq<char>, U>| element_outputs(item, selector))
}

/// The inner HTML, trimmed, of the elements `selector` selects in one
/// document, or `ElementMissing` where it selects none.
pub open spec fn content_outputs<U>(item: Result<Seq<char>, U>, selector: Seq<char>) -> ItemsModel<
    Seq<char>,
    HtmlContentErrorModel<U>,
> {
    match item {
        Err(u) => seq![Err(HtmlContentErrorModel::Upstream(u))],
        Ok(source) => {
            let selected = spec_selected_inner_html(source, selector);
            if selected.len() == 0 {
                seq![Err(HtmlContentErrorModel::ElementMissing(selector, spec_root_html(source)))]
            } else {
                selected.map_values(|h: Seq<char>| Ok(spec_trim(h)))
            }
        },
    }
}

pub open spec fn spec_content_of<U>(input: ItemsModel<Seq<char>, U>, selector: Seq<char>) -> ItemsModel<
    Seq<char>,
    HtmlContentErrorModel<U>,
> {
    input.flat_map(|item: Result<Seq<char>, U>| content_outputs(item, selector))
}

fn element_item<E: View>(item: Result<Document, E>, selector: &'static str) -> (r: Items<
    HtmlElement,
    HtmlElementValueError<E>,
>)
    requires
        item is Ok ==> spec_selector_valid(selector@),
    ensures
        items_model(r@) == element_outputs(result_model(item), selector@),
{
    let mut out: Items<HtmlElement, HtmlElementValueError<E>> = Vec::new();
    match item {
        Err(e) => {
            out.push(Err(HtmlElementValueError::Upstream(e)));
            assert(items_model(out@) =~= element_outputs(result_model(item), selector@));
        },
        Ok(document) => {
            let (elements, _inner, root) = select_in(document.source.as_str(), selector);
            if elements.len() == 0 {
                out.push(Err(HtmlElementValueError::ElementMissing(selector, root)));
                assert(items_model(out@) =~= element_outputs(result_model(item), selector@));
            } else {
                let ghost selected = elements_model(elements@);
                for e in it: elements.into_iter()
                    invariant
                        it.seq() == elements@,
                        selected == elements_model(elements@),
                        items_model(out@) == selected.take(it.index() as int).map_values(
                            |e: ElementModel| Ok::<ElementModel, HtmlElementErrorModel<E::V>>(e),
                        ),
                {
                    let ghost i = it.index();
                    let o: Result<HtmlElement, HtmlElementValueError<E>> = Ok(e);
                    proof {
                        lemma_items_model_push(out@, o);
                        assert(selected.take(i + 1).map_values(
                            |e: ElementModel| Ok::<ElementModel, HtmlElementErrorModel<E::V>>(e),
                        ) =~= selected.take(i).map_values(
                            |e: ElementModel| Ok::<ElementModel, HtmlElementErrorModel<E::V>>(e),
                        ).push(Ok(selected[i])));
                    }
                    out.push(o);
                }
                assert(selected.take(selected.len() as int) =~= selected);
            }
        },
    }
    out
}

fn content_item<E: View>(item: Result<Document, E>, selector: &'static str) -> (r: Items<
    String,
    HtmlContentValueError<E>,
>)
    requires
        item is Ok ==> spec_selector_valid(selector@),
    ensures
        items_model(r@) == content_outputs(result_model(item), selector@),
{
    let mut out: Items<String, HtmlContentValueError<E>> = Vec::new();
    match item {
        Err(e) => {
            out.push(Err(HtmlContentValueError::Upstream(e)));
            assert(items_model(out@) =~= content_outputs(result_model(item), selector@));
        },
        Ok(document) => {
            let (_elements, inner, root) = select_in(document.source.as_str(), selector);
            if inner.len() == 0 {
                out.push(Err(HtmlContentValueError::ElementMissing(selector, root)));
                assert(items_model(out@) =~= content_outputs(result_model(item), selector@));
            } else {
                let ghost selected = strings_model(inner@);
                for h in it: inner.into_iter()
                    invariant
                        it.seq() == inner@,
                        selected == strings_model(inner@),
                        items_model(out@) == selected.take(it.index() as int).map_values(
                            |h: Seq<char>| Ok::<Seq<char>, HtmlContentErrorModel<E::V>>(spec_trim(h)),
                        ),
                {
                    let ghost i = it.index();
                    let o: Result<String, HtmlContentValueError<E>> = Ok(trim(h.as_str()));
                    proof {
                        lemma_items_model_push(out@, o);
                        assert(selected.take(i + 1).map_values(
                            |h: Seq<char>| Ok::<Seq<char>, HtmlContentErrorModel<E::V>>(spec_trim(h)),
                        ) =~= selected.take(i).map_values(
                            |h: Seq<char>| Ok::<Seq<char>, HtmlContentErrorModel<E::V>>(spec_trim(h)),
                        ).push(Ok(spec_trim(selected[i]))));
                    }
                    out.push(o);
                }
                assert(selected.take(selected.len() as int) =~= selected);
            }
        },
    }
    out
}

/// Selects in each document the elements `selector` matches, in document
/// order; a document where it matches none yields `ElementMissing` with the
/// selector and the HTML of its root element. `selector` must be one that
/// `scraper` parses, where some document is read.
pub fn element<E: View>(input: Items<Document, E>, selector: &'static str) -> (r: Items<
    HtmlElement,
    HtmlElementValueError<E>,
>)
    requires
        has_value(input@) ==> spec_selector_valid(selector@),
    ensures
        items_model(r@) == spec_element(items_model(input@), selector@),
{
    let mut out: Items<HtmlElement, HtmlElementValueError<E>> = Vec::new();
    let ghost f = |item: Result<Seq<char>, E::V>| element_outputs(item, selector@);
    for item in it: input.into_iter()
        invariant
            it.seq() == input@,
            has_value(input@) ==> spec_selector_valid(selector@),
            f == (|item: Result<Seq<char>, E::V>| element_outputs(item, selector@)),
            items_model(out@) == items_model(input@).take(it.index() as int).flat_map(f),
    {
        let ghost i = it.index();
        assert(input@[i] is Ok ==> has_value(input@));
        let mut outputs = element_item(item, selector);
        proof {
            lemma_flat_map_take(items_model(input@), f, i);
            lemma_items_model_add(out@, outputs@);
        }
        out.append(&mut outputs);
    }
    assert(items_model(input@).take(input@.len() as int) =~= items_model(input@));
    out
}

/// Reads in each document the inner HTML of the elements `selector`
/// matches, trimmed; a document where it matches none yields
/// `ElementMissing`. `selector` must be one that `scraper` parses, where
/// some document is read.
pub fn content_of<E: View>(input: Items<Document, E>, selector: &'static str) -> (r: Items<
    String,
    HtmlContentValueError<E>,
>)
    requires
        has_value(input@) ==> spec_selector_valid(selector@),
    ensures
        items_model(r@) == spec_content_of(items_model(input@), selector@),
{
    let mut out: Items<String, HtmlContentValueError<E>> = Vec::new();
    let ghost f = |item: Result<Seq<char>, E::V>| content_outputs(item, selector@);
    for item in it: input.into_iter()
        invariant
            it.seq() == input@,
            has_value(input@) ==> spec_selector_valid(selector@),
            f == (|item: Result<Seq<char>, E::V>| content_outputs(item, selector@)),
            items_model(out@) == items_model(input@).take(it.index() as int).flat_map(f),
    {
        let ghost i = it.index();
        assert(input@[i] is Ok ==> has_value(input@));
        let mut outputs = content_item(item, selector);
        proof {
            lemma_flat_map_take(items_model(input@), f, i);
            lemma_items_model_add(out@, outputs@);
        }
        out.append(&mut outputs);
    }
    assert(items_model(input@).take(input@.len() as int) =~= items_model(input@));
    out
}

/// `element`, where `selector` may be one that `scraper` does not parse:
/// `None` then, if some document is read.
pub fn element_checked<E: View>(input: Items<Document, E>, selector: &'static str) -> (r: Option<
    Items<HtmlElement, HtmlElementValueError<E>>,
>)
    ensures
        match r {
            Some(out) => items_model(out@) == spec_element(items_model(input@), selector@),
            None => has_value(input@) && !spec_selector_valid(selector@),
        },
{
    if selector_is_valid(selector) || !has_document(&input) {
        Some(element(input, selector))
    } else {
        None
    }
}

/// `content_of`, where `selector` may be one that `scraper` does not parse:
/// `None` then, if some document is read.
pub fn content_of_checked<E: View>(input: Items<Document, E>, selector: &'static str) -> (r: Option<
    Items<String, HtmlContentValueError<E>>,
>)
    ensures
        match r {
            Some(out) => items_model(out@) == spec_content_of(items_model(input@), selector@),
            None => has_value(input@) && !spec_selector_valid(selector@),
        },
{
    if selector_is_valid(selector) || !has_document(&input) {
        Some(content_of(input, selector))
    } else {
        None
    }
}

fn has_document<T, E>(input: &Vec<Result<T, E>>) -> (b: bool)
    ensures
        b == has_value(input@),
{
    let mut i: usize = 0;
    while i < input.len()
        invariant
            i <= input.len(),
            forall|k: int| 0 <= k < i ==> !(#[trigger] input@[k] is Ok),
        decreases input.len() - i,
    {
        if input[i].is_ok() {
            return true;
        }
        i += 1;
    }
    false
}

// ---------------------------------------------------------------- indices

/// The keys as texts.
pub open spec fn keys_model(keys: Seq<&'static str>) -> Seq<Seq<char>> {
    keys.map_values(|k: &'static str| k@)
}

/// The field `key` of an object with fields `fields`.
pub open spec fn field_output<U>(fields: Seq<(Seq<char>, JsonModel)>, key: Seq<char>) -> Result<
    JsonModel,
    IndexErrorModel<U>,
> {
    match lookup(fields, key) {
        Some(v) => Ok(v),
        None => Err(IndexErrorModel::MissingKey(key, fields)),
    }
}

/// The fields `keys` of one JSON value, one item per key.
pub open spec fn indices_outputs<U>(item: Result<JsonModel, U>, keys: Seq<Seq<char>>) -> ItemsModel<
    JsonModel,
    IndexErrorModel<U>,
> {
    match item {
        Err(u) => seq![Err(IndexErrorModel::Upstream(u))],
        Ok(JsonModel::Object(fields)) => keys.map_values(
            |k: Seq<char>| field_output::<U>(fields, k),
        ),
        Ok(other) => seq![Err(IndexErrorModel::WrongType(an_object(), other))],
    }
}

pub open spec fn spec_indices<U>(input: ItemsModel<JsonModel, U>, keys: Seq<Seq<char>>) -> ItemsModel<
    JsonModel,
    IndexErrorModel<U>,
> {
    input.flat_map(|item: Result<JsonModel, U>| indices_outputs(item, keys))
}

fn indices_item<E: View>(item: Result<Json, E>, keys: &[&'static str]) -> (r: Items<
    Json,
    IndexValueError<E>,
>)
    ensures
        items_model(r@) == indices_outputs(result_model(item), keys_model(keys@)),
{
    let mut out: Items<Json, IndexValueError<E>> = Vec::new();
    match item {
        Err(e) => {
            out.push(Err(IndexValueError::Upstream(e)));
            assert(items_model(out@) =~= indices_outputs(result_model(item), keys_model(keys@)));
        },
        Ok(Json::Object(fields)) => {
            let ghost model = fields_model(fields@);
            let mut j: usize = 0;
            while j < keys.len()
                invariant
                    j <= keys.len(),
                    model == fields_model(fields@),
                    items_model(out@) == keys_model(keys@).take(j as int).map_values(
                        |k: Seq<char>| field_output::<E::V>(model, k),
                    ),
                decreases keys.len() - j,
            {
                let key = keys[j];
                let o = match get_field(&fields, key) {
                    Some(v) => Ok(v),
                    None => Err(
                        IndexValueError::MissingKey(key.to_owned(), copy_fields(&fields)),
                    ),
                };
                proof {
                    lemma_items_model_push(out@, o);
                    let km = keys_model(keys@);
                    assert(km[j as int] == key@);
                    assert(km.take(j + 1).map_values(|k: Seq<char>| field_output::<E::V>(model, k))
                        =~= km.take(j as int).map_values(
                        |k: Seq<char>| field_output::<E::V>(model, k),
                    ).push(field_output::<E::V>(model, key@)));
                }
                out.push(o);
                j += 1;
            }
            assert(keys_model(keys@).take(keys.len() as int) =~= keys_model(keys@));
        },
        Ok(other) => {
            out.push(Err(IndexValueError::WrongType("an object", other)));
            assert(items_model(out@) =~= indices_outputs(result_model(item), keys_model(keys@)));
        },
    }
    out
}

/// Reads the fields `keys` of each JSON object, one item per key in order:
/// its value, or `MissingKey` with the object's fields; a value that is not
/// an object yields one `WrongType`.
pub fn indices<E: View>(input: Items<Json, E>, keys: &[&'static str]) -> (r: Items<
    Json,
    IndexValueError<E>,
>)
    ensures
        items_model(r@) == spec_indices(items_model(input@), keys_model(keys@)),
{
    let mut out: Items<Json, IndexValueError<E>> = Vec::new();
    let ghost f = |item: Result<JsonModel, E::V>| indices_outputs(item, keys_model(keys@));
    for item in it: input.into_iter()
        invariant
            it.seq() == input@,
            f == (|item: Result<JsonModel, E::V>| indices_outputs(item, keys_model(keys@))),
            items_model(out@) == items_model(input@).take(it.index() as int).flat_map(f),
    {
        let ghost i = it.index();
        let mut outputs = indices_item(item, keys);
        proof {
            lemma_flat_map_take(items_model(input@), f, i);
            lemma_items_model_add(out@, outputs@);
        }
        out.append(&mut outputs);
    }
    assert(items_model(input@).take(input@.len() as int) =~= items_model(input@));
    out
}

// ---------------------------------------------------------------- relative_to

/// One link resolved against one base.
pub open spec fn resolved_output<U, B>(link: Seq<char>, base: Result<Seq<char>, B>) -> Result<
    Seq<char>,
    RelativeToErrorModel<U, B>,
> {
    match base {
        Err(b) => Err(RelativeToErrorModel::Base(b)),
        Ok(address) => match spec_join_url(address, link) {
            Ok(s) => Ok(s),
            Err(e) => Err(RelativeToErrorModel::UrlParseError(address, e)),
        },
    }
}

/// One link resolved against each of the bases, one item per base.
pub open spec fn relative_outputs<U, B>(item: Result<Seq<char>, U>, base: ItemsModel<Seq<char>, B>) -> ItemsModel<
    Seq<char>,
    RelativeToErrorModel<U, B>,
> {
    match item {
        Err(u) => seq![Err(RelativeToErrorModel::Upstream(u))],
        Ok(link) => base.map_values(|b: Result<Seq<char>, B>| resolved_output::<U, B>(link, b)),
    }
}

pub open spec fn spec_relative_to<U, B>(
    input: ItemsModel<Seq<char>, U>,
    base: ItemsModel<Seq<char>, B>,
) -> ItemsModel<Seq<char>, RelativeToErrorModel<U, B>> {
    input.flat_map(|item: Result<Seq<char>, U>| relative_outputs(item, base))
}

fn relative_item<E: View, EB: Duplicate>(item: Result<String, E>, base: &Items<String, EB>) -> (r:
    Items<String, RelativeToError<E, EB>>)
    ensures
        items_model(r@) == relative_outputs(result_model(item), items_model(base@)),
{
    let mut out: Items<String, RelativeToError<E, EB>> = Vec::new();
    match item {
        Err(e) => {
            out.push(Err(RelativeToError::Upstream(e)));
            assert(items_model(out@) =~= relative_outputs(result_model(item), items_model(base@)));
        },
        Ok(link) => {
            let ghost bm = items_model(base@);
            let mut j: usize = 0;
            while j < base.len()
                invariant
                    j <= base.len(),
                    bm == items_model(base@),
                    items_model(out@) == bm.take(j as int).map_values(
                        |b: Result<Seq<char>, EB::V>| resolved_output::<E::V, EB::V>(link@, b),
                    ),
                decreases base.len() - j,
            {
                let o = match &base[j] {
                    Err(b) => Err(RelativeToError::Base(b.duplicate())),
                    Ok(address) => match join_url(address.as_str(), link.as_str()) {
                        Ok(s) => Ok(s),
                        Err(e) => Err(RelativeToError::UrlParseError(address.clone(), e)),
                    },
                };
                proof {
                    lemma_items_model_push(out@, o);
                    assert(bm.take(j + 1).map_values(
                        |b: Result<Seq<char>, EB::V>| resolved_output::<E::V, EB::V>(link@, b),
                    ) =~= bm.take(j as int).map_values(
                        |b: Result<Seq<char>, EB::V>| resolved_output::<E::V, EB::V>(link@, b),
                    ).push(resolved_output::<E::V, EB::V>(link@, bm[j as int])));
                }
                out.push(o);
                j += 1;
            }
            assert(bm.take(base.len() as int) =~= bm);
        },
    }
    out
}

/// Resolves each link against each address of `base`, one item per base
/// item in order: the resolved address, the base's error, or
/// `UrlParseError` with the base where `url` fails; an error read yields
/// one item.
pub fn relative_to<E: View, EB: Duplicate>(input: Items<String, E>, base: Items<String, EB>) -> (r:
    Items<String, RelativeToError<E, EB>>)
    ensures
        items_model(r@) == spec_relative_to(items_model(input@), items_model(base@)),
{
    let mut out: Items<String, RelativeToError<E, EB>> = Vec::new();
    let ghost f = |item: Result<Seq<char>, E::V>| relative_outputs(item, items_model(base@));
    for item in it: input.into_iter()
        invariant
            it.seq() == input@,
            f == (|item: Result<Seq<char>, E::V>| relative_outputs(item, items_model(base@))),
            items_model(out@) == items_model(input@).take(it.index() as int).flat_map(f),
    {
        let ghost i = it.index();
        let mut outputs = relative_item(item, &base);
        proof {
            lemma_flat_map_take(items_model(input@), f, i);
            lemma_items_model_add(out@, outputs@);
        }
        out.append(&mut outputs);
    }
    assert(items_model(input@).take(input@.len() as int) =~= items_model(input@));
    out
}

// ---------------------------------------------------------------- either

/// The items of a value made of two: first those of `a`, then those of `b`,
/// their errors told apart.
pub open spec fn spec_either<T, A, B>(a: ItemsModel<T, A>, b: ItemsModel<T, B>) -> ItemsModel<
    T,
    EitherError<A, B>,
> {
    a.map_values(
        |r: Result<T, A>| match r {
            Ok(t) => Ok(t),
            Err(e) => Err(EitherError::A(e)),
        },
    ) + b.map_values(
        |r: Result<T, B>| match r {
            Ok(t) => Ok(t),
            Err(e) => Err(EitherError::B(e)),
        },
    )
}

/// The value made of `a` followed by `b`.
pub fn either<T: View, A: View, B: View>(a: Items<T, A>, b: Items<T, B>) -> (r: Items<
    T,
    EitherError<A, B>,
>)
    ensures
        items_model(r@) == spec_either(items_model(a@), items_model(b@)),
{
    let mut out: Items<T, EitherError<A, B>> = Vec::new();
    for item in it: a.into_iter()
        invariant
            it.seq() == a@,
            items_model(out@) == spec_either(
                items_model(a@).take(it.index() as int),
                Seq::<Result<T::V, B::V>>::empty(),
            ),
    {
        let ghost i = it.index();
        let o = match item {
            Ok(t) => Ok(t),
            Err(e) => Err(EitherError::A(e)),
        };
        proof {
            lemma_items_model_push(out@, o);
            let m = items_model(a@);
            assert(m.take(i + 1) =~= m.take(i).push(m[i]));
            assert(spec_either(m.take(i + 1), Seq::<Result<T::V, B::V>>::empty()) =~= spec_either(
                m.take(i),
                Seq::<Result<T::V, B::V>>::empty(),
            ).push(result_model(o)));
        }
        out.push(o);
    }
    assert(items_model(a@).take(a@.len() as int) =~= items_model(a@));
    for item in it: b.into_iter()
        invariant
            it.seq() == b@,
            items_model(out@) == spec_either(
                items_model(a@),
                items_model(b@).take(it.index() as int),
            ),
    {
        let ghost i = it.index();
        let o = match item {
            Ok(t) => Ok(t),
            Err(e) => Err(EitherError::B(e)),
        };
        proof {
            lemma_items_model_push(out@, o);
            let m = items_model(b@);
            assert(m.take(i + 1) =~= m.take(i).push(m[i]));
            assert(spec_either(items_model(a@), m.take(i + 1)) =~= spec_either(
                items_model(a@),
                m.take(i),
            ).push(result_model(o)));
        }
        out.push(o);
    }
    assert(items_model(b@).take(b@.len() as int) =~= items_model(b@));
    out
}

} // verus!
