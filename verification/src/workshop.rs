//! A workshop holds the client that fetches pages; a workshop value holds
//! the items of a value and the workshop it was made in, so that stages can
//! be chained on it.
use crate::errors::{
    HtmlAttrValueError, HtmlContentValueError, HtmlElementValueError, IndexValueError,
    JsValueError, JsonStringValueError, JsonValueError, JsonpValueError, RelativeToError,
    WebpageValueError,
};
use crate::html::{spec_selector_valid, Document, HtmlElement};
use crate::http::{Client, ClientErrorModel};
use crate::items::{duplicate_items, items_model, Duplicate};
use crate::json::Json;
use crate::stages::{
    attr, content_of, content_of_checked, element, element_checked, has_value, html, http_get, index, indices, js, json, json_string,
    jsonp, keys_model, relative_to, spec_attr, spec_content_of, spec_element, spec_http_get,
    answered, spec_index, spec_indices, spec_js, spec_json, spec_json_string, spec_jsonp, spec_relative_to,
    Items,
};
use vstd::prelude::*;

verus! {

/// Items with the same model have a value among them alike.
proof fn lemma_has_value_same_model<T: View, E: View>(a: Seq<Result<T, E>>, b: Seq<Result<T, E>>)
    requires
        items_model(a) == items_model(b),
    ensures
        has_value(a) == has_value(b),
{
    assert(items_model(a).len() == a.len());
    assert(items_model(b).len() == b.len());
    if has_value(a) {
        let i = choose|i: int| 0 <= i < a.len() && #[trigger] a[i] is Ok;
        assert(items_model(a)[i] == crate::items::result_model(a[i]));
        assert(items_model(b)[i] == crate::items::result_model(b[i]));
        assert(crate::items::result_model(b[i]) is Ok);
        assert(b[i] is Ok);
    }
    if has_value(b) {
        let i = choose|i: int| 0 <= i < b.len() && #[trigger] b[i] is Ok;
        assert(items_model(a)[i] == crate::items::result_model(a[i]));
        assert(items_model(b)[i] == crate::items::result_model(b[i]));
        assert(crate::items::result_model(a[i]) is Ok);
        assert(a[i] is Ok);
    }
}

/// The place where values are made: it holds the client that fetches pages.
#[derive(Debug)]
pub struct Workshop<H> {
    http_client: H,
}

impl<H> Workshop<H> {
    /// The client that fetches pages.
    pub closed spec fn client(&self) -> H {
        self.http_client
    }

    /// A workshop that fetches pages with `http_client`.
    pub fn new(http_client: H) -> (r: Self)
        ensures
            r.client() == http_client,
    {
        Workshop { http_client }
    }

    /// Reads each text of `v` as an HTML document.
    pub fn html<E: View>(&self, v: Items<String, E>) -> (r: WorkshopValue<'_, H, Items<Document, E>>)
        ensures
            items_model(r.value()@) == items_model(v@),
            r.workshop() == *self,
    {
        WorkshopValue::new(html(v), self)
    }

    /// Selects the elements `selector` matches in each document of `input`.
    pub fn element<E: View>(&self, input: Items<Document, E>, selector: &'static str) -> (r:
        WorkshopValue<'_, H, Items<HtmlElement, HtmlElementValueError<E>>>)
        requires
            has_value(input@) ==> spec_selector_valid(selector@),
        ensures
            items_model(r.value()@) == spec_element(items_model(input@), selector@),
            r.workshop() == *self,
    {
        WorkshopValue::new(element(input, selector), self)
    }

    /// Reads the trimmed inner HTML of the elements `selector` matches in each document of `input`.
    pub fn content_of<E: View>(&self, input: Items<Document, E>, selector: &'static str) -> (r:
        WorkshopValue<'_, H, Items<String, HtmlContentValueError<E>>>)
        requires
            has_value(input@) ==> spec_selector_valid(selector@),
        ensures
            items_model(r.value()@) == spec_content_of(items_model(input@), selector@),
            r.workshop() == *self,
    {
        WorkshopValue::new(content_of(input, selector), self)
    }

    /// `element`, where `selector` may be one that `scraper` does not parse:
    /// `None` then, if some document is read.
    pub fn element_checked<E: View>(&self, input: Items<Document, E>, selector: &'static str) -> (r:
        Option<WorkshopValue<'_, H, Items<HtmlElement, HtmlElementValueError<E>>>>)
        ensures
            match r {
                Some(v) => items_model(v.value()@) == spec_element(items_model(input@), selector@)
                    && v.workshop() == *self,
                None => has_value(input@) && !spec_selector_valid(selector@),
            },
    {
        match element_checked(input, selector) {
            Some(out) => Some(WorkshopValue::new(out, self)),
            None => None,
        }
    }

    /// `content_of`, where `selector` may be one that `scraper` does not
    /// parse: `None` then, if some document is read.
    pub fn content_of_checked<E: View>(&self, input: Items<Document, E>, selector: &'static str) -> (r:
        Option<WorkshopValue<'_, H, Items<String, HtmlContentValueError<E>>>>)
        ensures
            match r {
                Some(v) => items_model(v.value()@) == spec_content_of(items_model(input@), selector@)
                    && v.workshop() == *self,
                None => has_value(input@) && !spec_selector_valid(selector@),
            },
    {
        match content_of_checked(input, selector) {
            Some(out) => Some(WorkshopValue::new(out, self)),
            None => None,
        }
    }

    /// Reads the attribute `name` of each element of `input`.
    pub fn attr<E: View>(&self, input: Items<HtmlElement, E>, name: &'static str) -> (r:
        WorkshopValue<'_, H, Items<String, HtmlAttrValueError<E>>>)
        ensures
            items_model(r.value()@) == spec_attr(items_model(input@), name@),
            r.workshop() == *self,
    {
        WorkshopValue::new(attr(input, name), self)
    }

    /// Reads each text of `input` as a JavaScript value.
    pub fn js<E: View>(&self, input: Items<String, E>) -> (r: WorkshopValue<
        '_,
        H,
        Items<Json, JsValueError<E>>,
    >)
        ensures
            items_model(r.value()@) == spec_js(items_model(input@)),
            r.workshop() == *self,
    {
        WorkshopValue::new(js(input), self)
    }

    /// Parses each text of `input` as JSON.
    pub fn json<E: View>(&self, input: Items<String, E>) -> (r: WorkshopValue<
        '_,
        H,
        Items<Json, JsonValueError<E>>,
    >)
        ensures
            items_model(r.value()@) == spec_json(items_model(input@)),
            r.workshop() == *self,
    {
        WorkshopValue::new(json(input), self)
    }

    /// Reads each text of `input` as JSONP.
    pub fn jsonp<E: View>(&self, input: Items<String, E>) -> (r: WorkshopValue<
        '_,
        H,
        Items<Json, JsonpValueError<E>>,
    >)
        ensures
            items_model(r.value()@) == spec_jsonp(items_model(input@)),
            r.workshop() == *self,
    {
        WorkshopValue::new(jsonp(input), self)
    }

    /// Reads the field `key` of each JSON value of `input`.
    pub fn index<E: View>(&self, input: Items<Json, E>, key: &'static str) -> (r: WorkshopValue<
        '_,
        H,
        Items<Json, IndexValueError<E>>,
    >)
        ensures
            items_model(r.value()@) == spec_index(items_model(input@), key@),
            r.workshop() == *self,
    {
        WorkshopValue::new(index(input, key), self)
    }

    /// Reads the fields `keys` of each JSON value of `input`.
    pub fn indices<E: View>(&self, input: Items<Json, E>, keys: &[&'static str]) -> (r:
        WorkshopValue<'_, H, Items<Json, IndexValueError<E>>>)
        ensures
            items_model(r.value()@) == spec_indices(items_model(input@), keys_model(keys@)),
            r.workshop() == *self,
    {
        WorkshopValue::new(indices(input, keys), self)
    }

    /// Reads the string each JSON value of `input` holds.
    pub fn json_string<E: View>(&self, input: Items<Json, E>) -> (r: WorkshopValue<
        '_,
        H,
        Items<String, JsonStringValueError<E>>,
    >)
        ensures
            items_model(r.value()@) == spec_json_string(items_model(input@)),
            r.workshop() == *self,
    {
        WorkshopValue::new(json_string(input), self)
    }
}

impl<H: Client> Workshop<H> {
    /// Fetches the page at each address of `v` with this workshop's client,
    /// once per address read, in order: each address yields the client's
    /// answer for it; an error read yields itself, wrapped.
    pub fn http_get<E: Duplicate>(&self, v: &Items<String, E>) -> (r: WorkshopValue<
        '_,
        H,
        Items<String, WebpageValueError<E>>,
    >)
        ensures
            exists|responses: Seq<Result<Seq<char>, ClientErrorModel>>|
                responses.len() == v.len() && answered(self.client(), items_model(v@), responses)
                    && items_model(r.value()@) == #[trigger] spec_http_get(
                    items_model(v@),
                    responses,
                ),
            r.workshop() == *self,
    {
        let input = duplicate_items(v);
        let fetched = http_get(&self.http_client, input);
        let ghost responses = choose|responses: Seq<Result<Seq<char>, ClientErrorModel>>|
            responses.len() == input.len() && answered(self.http_client, items_model(input@), responses)
                && items_model(fetched@) == #[trigger] spec_http_get(items_model(input@), responses);
        let r = WorkshopValue::new(fetched, self);
        assert(items_model(r.value()@) == spec_http_get(items_model(v@), responses));
        r
    }
}

/// A value made in a workshop: its items, and the workshop.
#[derive(Debug)]
pub struct WorkshopValue<'ws, H, I> {
    inner: I,
    ws: &'ws Workshop<H>,
}

impl<'ws, H, I> WorkshopValue<'ws, H, I> {
    /// The items of this value.
    pub closed spec fn value(&self) -> I {
        self.inner
    }

    /// The workshop this value was made in.
    pub closed spec fn workshop(&self) -> Workshop<H> {
        *self.ws
    }

    /// The value of items `inner`, made in `ws`.
    pub fn new(inner: I, ws: &'ws Workshop<H>) -> (r: Self)
        ensures
            r.value() == inner,
            r.workshop() == *ws,
    {
        WorkshopValue { inner, ws }
    }

    /// The items of this value.
    pub fn get(&self) -> (r: &I)
        ensures
            *r == self.value(),
    {
        &self.inner
    }
}

impl<'ws, H, E: Duplicate> WorkshopValue<'ws, H, Items<String, E>> {
    /// Reads each text as an HTML document.
    pub fn html(&self) -> (r: WorkshopValue<'ws, H, Items<Document, E>>)
        ensures
            items_model(r.value()@) == items_model(self.value()@),
            r.workshop() == self.workshop(),
    {
        self.ws.html(duplicate_items(&self.inner))
    }

    /// Reads each text as a JavaScript value.
    pub fn js(&self) -> (r: WorkshopValue<'ws, H, Items<Json, JsValueError<E>>>)
        ensures
            items_model(r.value()@) == spec_js(items_model(self.value()@)),
            r.workshop() == self.workshop(),
    {
        self.ws.js(duplicate_items(&self.inner))
    }

    /// Parses each text as JSON.
    pub fn json(&self) -> (r: WorkshopValue<'ws, H, Items<Json, JsonValueError<E>>>)
        ensures
            items_model(r.value()@) == spec_json(items_model(self.value()@)),
            r.workshop() == self.workshop(),
    {
        self.ws.json(duplicate_items(&self.inner))
    }

    /// Reads each text as JSONP.
    pub fn jsonp(&self) -> (r: WorkshopValue<'ws, H, Items<Json, JsonpValueError<E>>>)
        ensures
            items_model(r.value()@) == spec_jsonp(items_model(self.value()@)),
            r.workshop() == self.workshop(),
    {
        self.ws.jsonp(duplicate_items(&self.inner))
    }

    /// Resolves each link against each address of `base`.
    pub fn relative_to<EB: Duplicate>(&self, base: Items<String, EB>) -> (r: WorkshopValue<
        'ws,
        H,
        Items<String, RelativeToError<E, EB>>,
    >)
        ensures
            items_model(r.value()@) == spec_relative_to(
                items_model(self.value()@),
                items_model(base@),
            ),
            r.workshop() == self.workshop(),
    {
        WorkshopValue::new(relative_to(duplicate_items(&self.inner), base), self.ws)
    }
}

impl<'ws, H, E: Duplicate> WorkshopValue<'ws, H, Items<Document, E>> {
    /// Selects the elements `selector` matches in each document.
    pub fn element(&self, selector: &'static str) -> (r: WorkshopValue<
        'ws,
        H,
        Items<HtmlElement, HtmlElementValueError<E>>,
    >)
        requires
            has_value(self.value()@) ==> spec_selector_valid(selector@),
        ensures
            items_model(r.value()@) == spec_element(items_model(self.value()@), selector@),
            r.workshop() == self.workshop(),
    {
        let input = duplicate_items(&self.inner);
        proof {
            lemma_has_value_same_model(input@, self.inner@);
        }
        self.ws.element(input, selector)
    }

    /// Reads the trimmed inner HTML of the elements `selector` matches in each document.
    pub fn content_of(&self, selector: &'static str) -> (r: WorkshopValue<
        'ws,
        H,
        Items<String, HtmlContentValueError<E>>,
    >)
        requires
            has_value(self.value()@) ==> spec_selector_valid(selector@),
        ensures
            items_model(r.value()@) == spec_content_of(items_model(self.value()@), selector@),
            r.workshop() == self.workshop(),
    {
        let input = duplicate_items(&self.inner);
        proof {
            lemma_has_value_same_model(input@, self.inner@);
        }
        self.ws.content_of(input, selector)
    }

    /// `element`, where `selector` may be one that `scraper` does not parse:
    /// `None` then, if some document is read.
    pub fn element_checked(&self, selector: &'static str) -> (r: Option<
        WorkshopValue<'ws, H, Items<HtmlElement, HtmlElementValueError<E>>>,
    >)
        ensures
            match r {
                Some(v) => items_model(v.value()@) == spec_element(
                    items_model(self.value()@),
                    selector@,
                ) && v.workshop() == self.workshop(),
                None => has_value(self.value()@) && !spec_selector_valid(selector@),
            },
    {
        let input = duplicate_items(&self.inner);
        proof {
            lemma_has_value_same_model(input@, self.inner@);
        }
        self.ws.element_checked(input, selector)
    }

    /// `content_of`, where `selector` may be one that `scraper` does not
    /// parse: `None` then, if some document is read.
    pub fn content_of_checked(&self, selector: &'static str) -> (r: Option<
        WorkshopValue<'ws, H, Items<String, HtmlContentValueError<E>>>,
    >)
        ensures
            match r {
                Some(v) => items_model(v.value()@) == spec_content_of(
                    items_model(self.value()@),
                    selector@,
                ) && v.workshop() == self.workshop(),
                None => has_value(self.value()@) && !spec_selector_valid(selector@),
            },
    {
        let input = duplicate_items(&self.inner);
        proof {
            lemma_has_value_same_model(input@, self.inner@);
        }
        self.ws.content_of_checked(input, selector)
    }
}

impl<'ws, H, E: Duplicate> WorkshopValue<'ws, H, Items<HtmlElement, E>> {
    /// Reads the attribute `name` of each element.
    pub fn attr(&self, name: &'static str) -> (r: WorkshopValue<
        'ws,
        H,
        Items<String, HtmlAttrValueError<E>>,
    >)
        ensures
            items_model(r.value()@) == spec_attr(items_model(self.value()@), name@),
            r.workshop() == self.workshop(),
    {
        self.ws.attr(duplicate_items(&self.inner), name)
    }
}

impl<'ws, H, E: Duplicate> WorkshopValue<'ws, H, Items<Json, E>> {
    /// Reads the field `key` of each JSON value.
    pub fn index(&self, key: &'static str) -> (r: WorkshopValue<'ws, H, Items<Json, IndexValueError<E>>>)
        ensures
            items_model(r.value()@) == spec_index(items_model(self.value()@), key@),
            r.workshop() == self.workshop(),
    {
        self.ws.index(duplicate_items(&self.inner), key)
    }

    /// Reads the fields `keys` of each JSON value.
    pub fn indices(&self, keys: &[&'static str]) -> (r: WorkshopValue<
        'ws,
        H,
        Items<Json, IndexValueError<E>>,
    >)
        ensures
            items_model(r.value()@) == spec_indices(items_model(self.value()@), keys_model(keys@)),
            r.workshop() == self.workshop(),
    {
        self.ws.indices(duplicate_items(&self.inner), keys)
    }

    /// Reads the string each JSON value holds.
    pub fn json_string(&self) -> (r: WorkshopValue<'ws, H, Items<String, JsonStringValueError<E>>>)
        ensures
            items_model(r.value()@) == spec_json_string(items_model(self.value()@)),
            r.workshop() == self.workshop(),
    {
        self.ws.json_string(duplicate_items(&self.inner))
    }
}

} // verus!
