//! The extraction this library was made for: a page, the JSON embedded in
//! it, the JSONP resource it links to, and the fields read from both.
use crate::errors::{
    EitherError, HtmlAttrErrorModel, HtmlAttrValueError, HtmlContentErrorModel,
    HtmlContentValueError, HtmlElementErrorModel, HtmlElementValueError, IndexErrorModel,
    IndexValueError, JsValueError, JsonStringErrorModel, JsonStringValueError, JsonValueError,
    JsonpValueError, ParseErrorModel, RelativeToError, RelativeToErrorModel, WebpageErrorModel,
    WebpageValueError,
};
use crate::html::{spec_selector_valid, selector_is_valid};
use crate::http::{Client, ClientErrorModel};
use crate::items::{duplicate_items, items_model, single_item, Never};
use crate::stages::{
    spec_attr, spec_content_of, spec_either, spec_element, spec_http_get, spec_index,
    spec_indices, spec_js, spec_json, spec_json_string, spec_jsonp, spec_relative_to, either,
    answered, keys_model, Items, ItemsModel,
};
use crate::workshop::Workshop;
use vstd::prelude::*;

verus! {

/// The error of the page.
pub type PageError = WebpageValueError<Never>;

/// The error of the JSON embedded in the page.
pub type InlineError = JsonValueError<HtmlContentValueError<PageError>>;

/// The error of the address of the JSONP resource.
pub type LinkError = RelativeToError<
    JsonStringValueError<
        IndexValueError<IndexValueError<JsValueError<HtmlAttrValueError<HtmlElementValueError<PageError>>>>>,
    >,
    Never,
>;

/// The error of the JSONP resource.
pub type MediaError = JsonpValueError<WebpageValueError<LinkError>>;

/// The error of a field of the JSONP resource.
pub type FieldError = IndexValueError<MediaError>;

/// The error of a metadata string.
pub type MetadataError = JsonStringValueError<IndexValueError<FieldError>>;

/// The error of the pair of the embedded string and the other content.
pub type PairError = EitherError<
    JsonStringValueError<IndexValueError<InlineError>>,
    HtmlContentValueError<PageError>,
>;

/// The error of the resolved resource addresses.
pub type ResourceError = RelativeToError<
    JsonStringValueError<IndexValueError<IndexValueError<FieldError>>>,
    LinkError,
>;

/// What an extraction yields: two metadata strings, the embedded string
/// followed by the other content of the page, and the resource addresses.
pub type Extraction = (
    Items<String, MetadataError>,
    Items<String, MetadataError>,
    Items<String, PairError>,
    Items<String, ResourceError>,
);

pub type PageModel = WebpageErrorModel<()>;

pub type InlineModel = ParseErrorModel<HtmlContentErrorModel<PageModel>>;

pub type LinkModel = RelativeToErrorModel<
    JsonStringErrorModel<
        IndexErrorModel<IndexErrorModel<ParseErrorModel<HtmlAttrErrorModel<HtmlElementErrorModel<PageModel>>>>>,
    >,
    (),
>;

pub type MediaModel = ParseErrorModel<WebpageErrorModel<LinkModel>>;

pub type FieldModel = IndexErrorModel<MediaModel>;

pub type MetadataModel = JsonStringErrorModel<IndexErrorModel<FieldModel>>;

pub type PairModel = EitherError<
    JsonStringErrorModel<IndexErrorModel<InlineModel>>,
    HtmlContentErrorModel<PageModel>,
>;

pub type ResourceModel = RelativeToErrorModel<
    JsonStringErrorModel<IndexErrorModel<IndexErrorModel<FieldModel>>>,
    LinkModel,
>;

pub type ExtractionModel = (
    ItemsModel<Seq<char>, MetadataModel>,
    ItemsModel<Seq<char>, MetadataModel>,
    ItemsModel<Seq<char>, PairModel>,
    ItemsModel<Seq<char>, ResourceModel>,
);

/// The page fetched from `url`, given the response.
pub open spec fn spec_webpage(url: Seq<char>, page: Result<Seq<char>, ClientErrorModel>) -> ItemsModel<
    Seq<char>,
    PageModel,
> {
    spec_http_get(seq![Ok::<Seq<char>, ()>(url)], seq![page])
}

/// The addresses of the JSONP resource found in the page.
pub open spec fn spec_links(url: Seq<char>, page: Result<Seq<char>, ClientErrorModel>) -> ItemsModel<
    Seq<char>,
    LinkModel,
> {
    let webpage = spec_webpage(url, page);
    spec_relative_to(
        spec_json_string(
            spec_index(
                spec_index(spec_js(spec_attr(spec_element(webpage, ".class"@), "data-foobar"@)), "x"@),
                "y"@,
            ),
        ),
        seq![Ok::<Seq<char>, ()>(url)],
    )
}

/// What the extraction from `url` yields, given the response for the page
/// and one response for each address of the JSONP resource.
pub open spec fn spec_run(
    url: Seq<char>,
    page: Result<Seq<char>, ClientErrorModel>,
    media: Seq<Result<Seq<char>, ClientErrorModel>>,
) -> ExtractionModel {
    let webpage = spec_webpage(url, page);
    let inline_metadata = spec_json(spec_content_of(webpage, "selector"@));
    let links = spec_links(url, page);
    let media_data = spec_jsonp(spec_http_get(links, media));
    let resource_data = spec_index(media_data, "x"@);
    let metadata = spec_index(media_data, "y"@);
    (
        spec_json_string(spec_index(metadata, "a"@)),
        spec_json_string(spec_index(metadata, "b"@)),
        spec_either(
            spec_json_string(spec_index(inline_metadata, "foo"@)),
            spec_content_of(webpage, ".other-class"@),
        ),
        spec_relative_to(
            spec_json_string(
                spec_indices(spec_indices(resource_data, seq!["a"@, "b"@]), seq!["a"@, "b"@, "c"@]),
            ),
            links,
        ),
    )
}

/// The models of what an extraction yields.
pub open spec fn extraction_model(r: Extraction) -> ExtractionModel {
    (items_model(r.0@), items_model(r.1@), items_model(r.2@), items_model(r.3@))
}

/// Whether the selectors the extraction uses are ones `scraper` parses.
pub open spec fn selectors_valid() -> bool {
    &&& spec_selector_valid("selector"@)
    &&& spec_selector_valid(".class"@)
    &&& spec_selector_valid(".other-class"@)
}

/// Extracts from the page at `url`, fetched with the workshop's client: the
/// JSON embedded in the element `selector`, the JSONP resource whose address
/// is in the `data-foobar` attribute of the elements of class `class`, and
/// the fields read from both. The client is asked for `url`, then for each
/// address of the resource found; the result is what `spec_run` gives for
/// the client's answers to those addresses.
pub fn run<'a, H: Client>(url: &'a str, ws: &'a Workshop<H>) -> (r: Extraction)
    requires
        selectors_valid(),
    ensures
        exists|
            page: Result<Seq<char>, ClientErrorModel>,
            media: Seq<Result<Seq<char>, ClientErrorModel>>,
        |
            media.len() == spec_links(url@, page).len() && ws.client().answers(url@, page)
                && answered(ws.client(), spec_links(url@, page), media) && extraction_model(r)
                == #[trigger] spec_run(url@, page, media),
{
    let address: Items<String, Never> = single_item(url.to_owned());
    let fetched = ws.http_get(&address);
    let ghost page_responses = choose|responses: Seq<Result<Seq<char>, ClientErrorModel>>|
        responses.len() == address.len() && answered(ws.client(), items_model(address@), responses)
            && items_model(fetched.value()@) == #[trigger] spec_http_get(
            items_model(address@),
            responses,
        );
    let ghost page = page_responses[0];
    proof {
        assert(items_model(address@) =~= seq![Ok::<Seq<char>, ()>(url@)]);
        assert(page_responses =~= seq![page]);
        assert(items_model(address@)[0] is Ok);
    }
    let webpage = fetched.html();
    assert(items_model(webpage.value()@) == spec_webpage(url@, page));
    let inline_metadata = webpage.content_of("selector").json();
    let base: Items<String, Never> = single_item(url.to_owned());
    assert(items_model(base@) =~= seq![Ok::<Seq<char>, ()>(url@)]);
    let jsonp_url = webpage.element(".class").attr("data-foobar").js().index("x").index(
        "y",
    ).json_string().relative_to(base);
    assert(items_model(jsonp_url.value()@) == spec_links(url@, page));
    let media_fetched = ws.http_get(jsonp_url.get());
    let ghost media = choose|responses: Seq<Result<Seq<char>, ClientErrorModel>>|
        responses.len() == jsonp_url.value().len() && answered(
            ws.client(),
            items_model(jsonp_url.value()@),
            responses,
        ) && items_model(media_fetched.value()@) == #[trigger] spec_http_get(
            items_model(jsonp_url.value()@),
            responses,
        );
    let media_data = media_fetched.jsonp();
    let resource_data = media_data.index("x");
    let metadata = media_data.index("y");
    let first = metadata.index("a").json_string();
    let second = metadata.index("b").json_string();
    let embedded = inline_metadata.index("foo").json_string();
    let other = webpage.content_of(".other-class");
    let pair = either(duplicate_items(embedded.get()), duplicate_items(other.get()));
    let keys_ab: &[&'static str] = &["a", "b"];
    let keys_abc: &[&'static str] = &["a", "b", "c"];
    assert(keys_model(keys_ab@) =~= seq!["a"@, "b"@]);
    assert(keys_model(keys_abc@) =~= seq!["a"@, "b"@, "c"@]);
    let resources = resource_data.indices(keys_ab).indices(keys_abc).json_string().relative_to(
        duplicate_items(jsonp_url.get()),
    );
    let r = (
        duplicate_items(first.get()),
        duplicate_items(second.get()),
        pair,
        duplicate_items(resources.get()),
    );
    assert(items_model(media_data.value()@) == spec_jsonp(spec_http_get(spec_links(url@, page), media)));
    assert(items_model(r.0@) == spec_run(url@, page, media).0);
    assert(items_model(r.1@) == spec_run(url@, page, media).1);
    assert(items_model(r.2@) == spec_run(url@, page, media).2);
    assert(items_model(r.3@) == spec_run(url@, page, media).3);
    assert(extraction_model(r) == spec_run(url@, page, media));
    r
}

/// `run`, where the selectors it uses may be ones `scraper` does not parse:
/// `None` then.
pub fn run_checked<'a, H: Client>(url: &'a str, ws: &'a Workshop<H>) -> (r: Option<Extraction>)
    ensures
        match r {
            Some(e) => exists|
                page: Result<Seq<char>, ClientErrorModel>,
                media: Seq<Result<Seq<char>, ClientErrorModel>>,
            |
                media.len() == spec_links(url@, page).len() && ws.client().answers(url@, page)
                    && answered(ws.client(), spec_links(url@, page), media) && extraction_model(e)
                    == #[trigger] spec_run(url@, page, media),
            None => !selectors_valid(),
        },
{
    if selector_is_valid("selector") && selector_is_valid(".class") && selector_is_valid(
        ".other-class",
    ) {
        Some(run(url, ws))
    } else {
        None
    }
}

} // verus!
