//! Properties that hold of the stages for every input.
use crate::errors::{
    EitherError, HtmlAttrErrorModel, IndexErrorModel, JsonStringErrorModel, ParseErrorModel,
};
use crate::html::{
    plain_attr_named, spec_root_html, spec_selected_elements, spec_selected_inner_html,
    AttrModel, ElementModel,
};
use crate::links::spec_join_url;
use crate::run::{spec_links, spec_run};
use crate::text::{spec_swap_quotes, spec_trim};
use crate::json::spec_parse_json;
use crate::errors::{HtmlContentErrorModel, HtmlElementErrorModel};
use crate::json::{lookup, JsonModel};
use crate::http::ClientErrorModel;
use crate::errors::{RelativeToErrorModel, WebpageErrorModel};
use crate::stages::{
    relative_outputs, spec_http_get, spec_relative_to, content_outputs, element_outputs, field_output, indices_outputs, spec_attr, spec_content_of,
    spec_either, spec_element, spec_index, spec_indices, spec_js, spec_json, spec_json_string,
    spec_jsonp, ItemsModel,
};
use crate::text::{is_callback_char, is_white_space, law_jsonp_unwraps_call};
use vstd::prelude::*;

verus! {

broadcast use vstd::seq::group_seq_axioms, vstd::seq_lib::group_seq_properties;

/// `flat_map` of a function that yields one item is `map_values` of that item.
proof fn lemma_flat_map_singletons<A, B>(s: Seq<A>, f: spec_fn(A) -> Seq<B>, g: spec_fn(A) -> B)
    requires
        forall|x: A| #[trigger] f(x) == seq![g(x)],
    ensures
        s.flat_map(f) == s.map_values(g),
    decreases s.len(),
{
    if s.len() > 0 {
        lemma_flat_map_singletons(s.drop_last(), f, g);
        assert(s.map_values(f) =~= s.drop_last().map_values(f).push(f(s.last())));
        s.drop_last().map_values(f).lemma_flatten_push(f(s.last()));
        assert(s.map_values(g) =~= s.drop_last().map_values(g).push(g(s.last())));
    } else {
        assert(s.map_values(f) =~= Seq::<Seq<B>>::empty());
    }
}

/// `flat_map` of a function that yields at least one item yields at least
/// as many items as it reads.
proof fn lemma_flat_map_at_least_one<A, B>(s: Seq<A>, f: spec_fn(A) -> Seq<B>)
    requires
        forall|x: A| #[trigger] f(x).len() >= 1,
    ensures
        s.flat_map(f).len() >= s.len(),
    decreases s.len(),
{
    if s.len() > 0 {
        lemma_flat_map_at_least_one(s.drop_last(), f);
        assert(s.map_values(f) =~= s.drop_last().map_values(f).push(f(s.last())));
        s.drop_last().map_values(f).lemma_flatten_push(f(s.last()));
    }
}

/// The stages that read one item into one yield as many items as they read,
/// and an error read at a position is passed on, wrapped, at that position.
pub proof fn law_one_item_per_item<U>(
    elements: ItemsModel<ElementModel, U>,
    texts: ItemsModel<Seq<char>, U>,
    values: ItemsModel<JsonModel, U>,
    name: Seq<char>,
    key: Seq<char>,
)
    ensures
        spec_attr(elements, name).len() == elements.len(),
        spec_json(texts).len() == texts.len(),
        spec_js(texts).len() == texts.len(),
        spec_jsonp(texts).len() == texts.len(),
        spec_index(values, key).len() == values.len(),
        spec_json_string(values).len() == values.len(),
        forall|i: int|
            0 <= i < elements.len() && #[trigger] elements[i] is Err ==> spec_attr(elements, name)[i]
                == Err::<Seq<char>, HtmlAttrErrorModel<U>>(
                HtmlAttrErrorModel::Upstream(elements[i]->Err_0),
            ),
        forall|i: int|
            0 <= i < texts.len() && #[trigger] texts[i] is Err ==> {
                let e = Err::<JsonModel, ParseErrorModel<U>>(
                    ParseErrorModel::Upstream(texts[i]->Err_0),
                );
                spec_json(texts)[i] == e && spec_js(texts)[i] == e && spec_jsonp(texts)[i] == e
            },
        forall|i: int|
            0 <= i < values.len() && #[trigger] values[i] is Err ==> spec_index(values, key)[i]
                == Err::<JsonModel, IndexErrorModel<U>>(IndexErrorModel::Upstream(values[i]->Err_0))
                && spec_json_string(values)[i] == Err::<Seq<char>, JsonStringErrorModel<U>>(
                JsonStringErrorModel::Upstream(values[i]->Err_0),
            ),
{
}

/// Selecting in documents, and reading content from them, yields at least
/// one item for every item read: every document yields its elements, or
/// `ElementMissing`.
pub proof fn law_every_document_answers<U>(documents: ItemsModel<Seq<char>, U>, selector: Seq<char>)
    ensures
        spec_element(documents, selector).len() >= documents.len(),
        spec_content_of(documents, selector).len() >= documents.len(),
{
    let f = |item: Result<Seq<char>, U>| element_outputs(item, selector);
    let g = |item: Result<Seq<char>, U>| content_outputs(item, selector);
    assert forall|x: Result<Seq<char>, U>| #[trigger] f(x).len() >= 1 by {
        if let Ok(source) = x {
            let selected = crate::html::spec_selected_elements(source, selector);
            if selected.len() != 0 {
                assert(f(x).len() == selected.len());
            }
        }
    }
    assert forall|x: Result<Seq<char>, U>| #[trigger] g(x).len() >= 1 by {
        if let Ok(source) = x {
            let selected = crate::html::spec_selected_inner_html(source, selector);
            if selected.len() != 0 {
                assert(g(x).len() == selected.len());
            }
        }
    }
    lemma_flat_map_at_least_one(documents, f);
    lemma_flat_map_at_least_one(documents, g);
}

/// Reading the fields of one key is reading that key.
pub proof fn law_indices_of_one_key_is_index<U>(values: ItemsModel<JsonModel, U>, key: Seq<char>)
    ensures
        spec_indices(values, seq![key]) == spec_index(values, key),
{
    let f = |item: Result<JsonModel, U>| indices_outputs(item, seq![key]);
    let g = |item: Result<JsonModel, U>| crate::stages::index_output(item, key);
    assert forall|x: Result<JsonModel, U>| #[trigger] f(x) == seq![g(x)] by {
        match x {
            Ok(JsonModel::Object(fields)) => {
                assert(seq![key].map_values(|k: Seq<char>| field_output::<U>(fields, k)) =~= seq![
                    field_output::<U>(fields, key),
                ]);
            },
            _ => {},
        }
    }
    lemma_flat_map_singletons(values, f, g);
}

/// `lookup` gives the value of the first field of that name, and `None`
/// exactly where no field has that name.
pub proof fn law_lookup_first_field(fields: Seq<(Seq<char>, JsonModel)>, key: Seq<char>)
    ensures
        lookup(fields, key) is None <==> forall|i: int|
            0 <= i < fields.len() ==> (#[trigger] fields[i]).0 != key,
        lookup(fields, key) matches Some(v) ==> exists|i: int|
            0 <= i < fields.len() && #[trigger] fields[i] == (key, v) && forall|j: int|
                0 <= j < i ==> (#[trigger] fields[j]).0 != key,
    decreases fields.len(),
{
    if fields.len() > 0 {
        let rest = fields.drop_first();
        law_lookup_first_field(rest, key);
        assert forall|i: int| 0 <= i < rest.len() implies #[trigger] rest[i] == fields[i + 1] by {}
        if fields[0].0 == key {
            assert(fields[0] == (key, fields[0].1));
        } else {
            if let Some(v) = lookup(rest, key) {
                let i = choose|i: int|
                    0 <= i < rest.len() && #[trigger] rest[i] == (key, v) && forall|j: int|
                        0 <= j < i ==> (#[trigger] rest[j]).0 != key;
                assert(fields[i + 1] == (key, v));
                assert forall|j: int| 0 <= j < i + 1 implies (#[trigger] fields[j]).0 != key by {
                    if j > 0 {
                        assert(fields[j] == rest[j - 1]);
                    }
                }
            }
            assert((forall|i: int| 0 <= i < rest.len() ==> (#[trigger] rest[i]).0 != key)
                <==> (forall|i: int| 0 <= i < fields.len() ==> (#[trigger] fields[i]).0 != key)) by {
                if forall|i: int| 0 <= i < rest.len() ==> (#[trigger] rest[i]).0 != key {
                    assert forall|i: int| 0 <= i < fields.len() implies (#[trigger] fields[i]).0
                        != key by {
                        if i > 0 {
                            assert(fields[i] == rest[i - 1]);
                        }
                    }
                }
            }
        }
    }
}

/// Indexing an object at a field that holds a string, then reading the
/// string, gives back that string.
pub proof fn law_indexed_string_reads_back<U>(
    fields: Seq<(Seq<char>, JsonModel)>,
    key: Seq<char>,
    s: Seq<char>,
)
    requires
        lookup(fields, key) == Some(JsonModel::String(s)),
    ensures
        spec_json_string(
            spec_index(seq![Ok::<JsonModel, U>(JsonModel::Object(fields))], key),
        ) == seq![Ok::<Seq<char>, JsonStringErrorModel<IndexErrorModel<U>>>(s)],
{
    assert(spec_index(seq![Ok::<JsonModel, U>(JsonModel::Object(fields))], key) =~= seq![
        Ok::<JsonModel, IndexErrorModel<U>>(JsonModel::String(s)),
    ]);
    assert(spec_json_string(seq![Ok::<JsonModel, IndexErrorModel<U>>(JsonModel::String(s))])
        =~= seq![Ok::<Seq<char>, JsonStringErrorModel<IndexErrorModel<U>>>(s)]);
}

/// The value made of two yields the items of the first, then those of the
/// second, in order, values kept and errors told apart.
pub proof fn law_either_concatenates<T, A, B>(a: ItemsModel<T, A>, b: ItemsModel<T, B>)
    ensures
        spec_either(a, b).len() == a.len() + b.len(),
        forall|i: int|
            0 <= i < a.len() ==> #[trigger] spec_either(a, b)[i] == match a[i] {
                Ok(t) => Ok(t),
                Err(e) => Err(EitherError::<A, B>::A(e)),
            },
        forall|i: int|
            0 <= i < b.len() ==> #[trigger] spec_either(a, b)[a.len() + i] == match b[i] {
                Ok(t) => Ok(t),
                Err(e) => Err(EitherError::<A, B>::B(e)),
            },
{
}

/// Reading a JSONP call yields what reading its argument as a JavaScript
/// value yields: for a callback name made of callback characters that are
/// not whitespace, and a non-empty argument.
pub proof fn law_jsonp_reads_argument<U>(name: Seq<char>, argument: Seq<char>)
    requires
        name.len() > 0,
        argument.len() > 0,
        forall|i: int|
            0 <= i < name.len() ==> is_callback_char(#[trigger] name[i]) && !is_white_space(
                name[i],
            ),
    ensures
        spec_jsonp(seq![Ok::<Seq<char>, U>(name + seq!['('] + argument + seq![')', ';'])])
            == spec_js(seq![Ok::<Seq<char>, U>(argument)]),
{
    law_jsonp_unwraps_call(name, argument);
    assert(spec_jsonp(seq![Ok::<Seq<char>, U>(name + seq!['('] + argument + seq![')', ';'])])
        =~= spec_js(seq![Ok::<Seq<char>, U>(argument)]));
}

/// The number of items of `s` that are values rather than errors.
pub open spec fn count_values<T, E>(s: Seq<Result<T, E>>) -> nat
    decreases s.len(),
{
    if s.len() == 0 {
        0
    } else {
        count_values(s.drop_last()) + if s.last() is Ok {
            1nat
        } else {
            0nat
        }
    }
}

proof fn lemma_count_values_bound<T, E>(s: Seq<Result<T, E>>)
    ensures
        count_values(s) <= s.len(),
    decreases s.len(),
{
    if s.len() > 0 {
        lemma_count_values_bound(s.drop_last());
    }
}

/// Resolving links against bases yields one item per base for each link,
/// and one item for each error read.
pub proof fn law_relative_to_counts<U, B>(links: ItemsModel<Seq<char>, U>, base: ItemsModel<Seq<char>, B>)
    ensures
        spec_relative_to(links, base).len() == count_values(links) * base.len() + (links.len()
            - count_values(links)),
    decreases links.len(),
{
    lemma_count_values_bound(links);
    if links.len() > 0 {
        let init = links.drop_last();
        law_relative_to_counts(init, base);
        lemma_count_values_bound(init);
        let f = |item: Result<Seq<char>, U>| relative_outputs(item, base);
        assert(links.map_values(f) =~= init.map_values(f).push(f(links.last())));
        init.map_values(f).lemma_flatten_push(f(links.last()));
        let c = count_values(init) as int;
        let n = base.len() as int;
        if links.last() is Ok {
            assert((c + 1) * n == c * n + n) by (nonlinear_arith);
        }
    } else {
        assert(links.map_values(|item: Result<Seq<char>, U>| relative_outputs(item, base))
            =~= Seq::<ItemsModel<Seq<char>, RelativeToErrorModel<U, B>>>::empty());
    }
}

/// Fetching yields one item per address; an error read is passed on, wrapped,
/// at its position, whatever the responses.
pub proof fn law_fetch_one_item_per_address<U>(
    addresses: ItemsModel<Seq<char>, U>,
    responses: Seq<Result<Seq<char>, ClientErrorModel>>,
)
    ensures
        spec_http_get(addresses, responses).len() == addresses.len(),
        forall|i: int|
            0 <= i < addresses.len() && #[trigger] addresses[i] is Err ==> spec_http_get(
                addresses,
                responses,
            )[i] == Err::<Seq<char>, WebpageErrorModel<U>>(
                WebpageErrorModel::Upstream(addresses[i]->Err_0),
            ),
{
}

/// An item of a `flat_map` is an item yielded for one of the inputs.
proof fn lemma_flat_map_member<A, B>(s: Seq<A>, f: spec_fn(A) -> Seq<B>, k: int)
    requires
        0 <= k < s.flat_map(f).len(),
    ensures
        exists|i: int, j: int|
            0 <= i < s.len() && 0 <= j < f(s[i]).len() && #[trigger] f(s[i])[j] == s.flat_map(
                f,
            )[k],
    decreases s.len(),
{
    if s.len() == 0 {
        assert(s.map_values(f) =~= Seq::<Seq<B>>::empty());
    } else {
        let init = s.drop_last();
        assert(s.map_values(f) =~= init.map_values(f).push(f(s.last())));
        init.map_values(f).lemma_flatten_push(f(s.last()));
        let n = init.flat_map(f).len();
        if k < n {
            lemma_flat_map_member(init, f, k);
            let (i, j) = choose|i: int, j: int|
                0 <= i < init.len() && 0 <= j < f(init[i]).len() && #[trigger] f(init[i])[j]
                    == init.flat_map(f)[k];
            assert(init[i] == s[i]);
            assert(f(s[i])[j] == s.flat_map(f)[k]);
        } else {
            let i = s.len() - 1;
            let j = k - n;
            assert(f(s[i])[j] == s.flat_map(f)[k]);
        }
    }
}

/// `flat_map` over a concatenation is the concatenation of the `flat_map`s.
proof fn lemma_flat_map_add<A, B>(a: Seq<A>, b: Seq<A>, f: spec_fn(A) -> Seq<B>)
    ensures
        (a + b).flat_map(f) == a.flat_map(f) + b.flat_map(f),
{
    assert((a + b).map_values(f) =~= a.map_values(f) + b.map_values(f));
    vstd::seq_lib::lemma_flatten_concat(a.map_values(f), b.map_values(f));
}

/// `flat_map` over one input is what that input yields.
proof fn lemma_flat_map_one<A, B>(x: A, f: spec_fn(A) -> Seq<B>)
    ensures
        seq![x].flat_map(f) == f(x),
{
    assert(seq![x].map_values(f) =~= seq![f(x)]);
    seq![f(x)].lemma_flatten_singleton();
}

/// Every address that resolving yields is a link of the input resolved
/// against an address of the base: `url` joins the base address and the link.
pub proof fn law_relative_to_joins_link_with_base<U, B>(
    links: ItemsModel<Seq<char>, U>,
    base: ItemsModel<Seq<char>, B>,
    k: int,
)
    requires
        0 <= k < spec_relative_to(links, base).len(),
        spec_relative_to(links, base)[k] is Ok,
    ensures
        exists|i: int, j: int|
            #![trigger links[i], base[j]]
            0 <= i < links.len() && 0 <= j < base.len() && links[i] is Ok && base[j] is Ok
                && spec_join_url(base[j]->Ok_0, links[i]->Ok_0) == Ok::<
                Seq<char>,
                url::ParseError,
            >(spec_relative_to(links, base)[k]->Ok_0),
{
    let f = |item: Result<Seq<char>, U>| relative_outputs(item, base);
    lemma_flat_map_member(links, f, k);
    let (i, j) = choose|i: int, j: int|
        0 <= i < links.len() && 0 <= j < f(links[i]).len() && #[trigger] f(links[i])[j]
            == links.flat_map(f)[k];
    assert(links[i] is Ok);
    assert(base[j] is Ok);
}

/// The resources that `run` yields last are resolved against the addresses
/// of the JSONP resource found in the page, not against the page's address:
/// each is a resource string joined with one of those addresses.
pub proof fn law_run_resolves_resources_against_links(
    url: Seq<char>,
    page: Result<Seq<char>, ClientErrorModel>,
    media: Seq<Result<Seq<char>, ClientErrorModel>>,
    k: int,
)
    requires
        0 <= k < spec_run(url, page, media).3.len(),
        spec_run(url, page, media).3[k] is Ok,
    ensures
        exists|j: int, resource: Seq<char>|
            #![trigger spec_join_url(spec_links(url, page)[j]->Ok_0, resource)]
            0 <= j < spec_links(url, page).len() && spec_links(url, page)[j] is Ok
                && spec_join_url(spec_links(url, page)[j]->Ok_0, resource) == Ok::<
                Seq<char>,
                url::ParseError,
            >(spec_run(url, page, media).3[k]->Ok_0),
{
    let out = spec_run(url, page, media).3;
    let links = spec_links(url, page);
    let media_data = spec_jsonp(spec_http_get(links, media));
    let resources = spec_json_string(
        spec_indices(
            spec_indices(spec_index(media_data, "x"@), seq!["a"@, "b"@]),
            seq!["a"@, "b"@, "c"@],
        ),
    );
    assert(out == spec_relative_to(resources, links));
    law_relative_to_joins_link_with_base(resources, links, k);
    let (i, j) = choose|i: int, j: int|
        #![trigger resources[i], links[j]]
        0 <= i < resources.len() && 0 <= j < links.len() && resources[i] is Ok && links[j] is Ok
            && spec_join_url(links[j]->Ok_0, resources[i]->Ok_0) == Ok::<Seq<char>, url::ParseError>(
            out[k]->Ok_0,
        );
    assert(links[j] is Ok);
    assert(spec_join_url(links[j]->Ok_0, resources[i]->Ok_0) == Ok::<Seq<char>, url::ParseError>(
        out[k]->Ok_0,
    ));
}

/// Reading content from one document yields, in order, the trimmed inner
/// HTML of each element the selector selects, or, where it selects none,
/// `ElementMissing` with the selector and the HTML of the root element.
pub proof fn law_content_of_in_document_order<U>(source: Seq<char>, selector: Seq<char>)
    ensures
        ({
            let selected = spec_selected_inner_html(source, selector);
            let out = spec_content_of(seq![Ok::<Seq<char>, U>(source)], selector);
            &&& selected.len() > 0 ==> out.len() == selected.len() && forall|i: int|
                0 <= i < selected.len() ==> #[trigger] out[i] == Ok::<
                    Seq<char>,
                    HtmlContentErrorModel<U>,
                >(spec_trim(selected[i]))
            &&& selected.len() == 0 ==> out == seq![
                Err::<Seq<char>, HtmlContentErrorModel<U>>(
                    HtmlContentErrorModel::ElementMissing(selector, spec_root_html(source)),
                ),
            ]
        }),
{
    lemma_flat_map_one(
        Ok::<Seq<char>, U>(source),
        |item: Result<Seq<char>, U>| content_outputs(item, selector),
    );
}

/// Selecting in one document yields, in order, each element the selector
/// selects, or, where it selects none, `ElementMissing`.
pub proof fn law_element_in_document_order<U>(source: Seq<char>, selector: Seq<char>)
    ensures
        ({
            let selected = spec_selected_elements(source, selector);
            let out = spec_element(seq![Ok::<Seq<char>, U>(source)], selector);
            &&& selected.len() > 0 ==> out.len() == selected.len() && forall|i: int|
                0 <= i < selected.len() ==> #[trigger] out[i] == Ok::<
                    ElementModel,
                    HtmlElementErrorModel<U>,
                >(selected[i])
            &&& selected.len() == 0 ==> out == seq![
                Err::<ElementModel, HtmlElementErrorModel<U>>(
                    HtmlElementErrorModel::ElementMissing(selector, spec_root_html(source)),
                ),
            ]
        }),
{
    lemma_flat_map_one(
        Ok::<Seq<char>, U>(source),
        |item: Result<Seq<char>, U>| element_outputs(item, selector),
    );
}

/// Selecting in two values of documents one after the other yields what
/// selecting in each yields, one after the other.
pub proof fn law_selection_concatenates<U>(
    a: ItemsModel<Seq<char>, U>,
    b: ItemsModel<Seq<char>, U>,
    selector: Seq<char>,
)
    ensures
        spec_element(a + b, selector) == spec_element(a, selector) + spec_element(b, selector),
        spec_content_of(a + b, selector) == spec_content_of(a, selector) + spec_content_of(
            b,
            selector,
        ),
{
    lemma_flat_map_add(a, b, |item: Result<Seq<char>, U>| element_outputs(item, selector));
    lemma_flat_map_add(a, b, |item: Result<Seq<char>, U>| content_outputs(item, selector));
}

/// `json` parses each text as it is: the value `serde_json` makes of the
/// text, or `NotParsed` with the text and the parser's message.
pub proof fn law_json_parses_text_as_given<U>(texts: ItemsModel<Seq<char>, U>, i: int)
    requires
        0 <= i < texts.len(),
        texts[i] is Ok,
    ensures
        match spec_parse_json(texts[i]->Ok_0) {
            Ok(j) => spec_json(texts)[i] == Ok::<JsonModel, ParseErrorModel<U>>(j),
            Err(m) => spec_json(texts)[i] == Err::<JsonModel, ParseErrorModel<U>>(
                ParseErrorModel::NotParsed(texts[i]->Ok_0, m),
            ),
        },
{
}

/// Reading a JavaScript value is parsing, as JSON, the text with its single
/// quotes made double.
pub proof fn law_js_is_json_of_swapped_text<U>(texts: ItemsModel<Seq<char>, U>)
    ensures
        spec_js(texts) == spec_json(
            texts.map_values(
                |r: Result<Seq<char>, U>| match r {
                    Ok(t) => Ok(spec_swap_quotes(t)),
                    Err(e) => Err(e),
                },
            ),
        ),
{
    let swapped = texts.map_values(
        |r: Result<Seq<char>, U>| match r {
            Ok(t) => Ok(spec_swap_quotes(t)),
            Err(e) => Err(e),
        },
    );
    assert(spec_js(texts) =~= spec_json(swapped));
}

/// Indexing an object gives the value of its first field named `key`,
/// whatever that value is, and `MissingKey` with the object's fields exactly
/// where no field has that name.
pub proof fn law_index_reads_first_field<U>(fields: Seq<(Seq<char>, JsonModel)>, key: Seq<char>)
    ensures
        (exists|i: int| 0 <= i < fields.len() && (#[trigger] fields[i]).0 == key) ==> exists|i: int|
            0 <= i < fields.len() && (#[trigger] fields[i]).0 == key && (forall|j: int|
                0 <= j < i ==> (#[trigger] fields[j]).0 != key) && spec_index(
                seq![Ok::<JsonModel, U>(JsonModel::Object(fields))],
                key,
            ) == seq![Ok::<JsonModel, IndexErrorModel<U>>(fields[i].1)],
        (forall|i: int| 0 <= i < fields.len() ==> (#[trigger] fields[i]).0 != key) ==> spec_index(
            seq![Ok::<JsonModel, U>(JsonModel::Object(fields))],
            key,
        ) == seq![
            Err::<JsonModel, IndexErrorModel<U>>(IndexErrorModel::MissingKey(key, fields)),
        ],
{
    law_lookup_first_field(fields, key);
    let out = spec_index(seq![Ok::<JsonModel, U>(JsonModel::Object(fields))], key);
    if let Some(v) = lookup(fields, key) {
        let i = choose|i: int|
            0 <= i < fields.len() && #[trigger] fields[i] == (key, v) && forall|j: int|
                0 <= j < i ==> (#[trigger] fields[j]).0 != key;
        assert(fields[i].0 == key);
        assert(out =~= seq![Ok::<JsonModel, IndexErrorModel<U>>(fields[i].1)]);
    } else {
        assert(out =~= seq![
            Err::<JsonModel, IndexErrorModel<U>>(IndexErrorModel::MissingKey(key, fields)),
        ]);
    }
}

/// Each item of `index` is what indexing that item alone yields.
pub proof fn law_index_item_by_item<U>(values: ItemsModel<JsonModel, U>, key: Seq<char>, i: int)
    requires
        0 <= i < values.len(),
    ensures
        spec_index(values, key)[i] == spec_index(seq![values[i]], key)[0],
{
}

/// Reading several keys of one object yields, key by key, what reading each
/// key alone yields.
pub proof fn law_indices_key_by_key<U>(value: JsonModel, keys: Seq<Seq<char>>)
    requires
        value is Object,
    ensures
        spec_indices(seq![Ok::<JsonModel, U>(value)], keys).len() == keys.len(),
        forall|j: int|
            0 <= j < keys.len() ==> #[trigger] spec_indices(seq![Ok::<JsonModel, U>(value)], keys)[j]
                == spec_index(seq![Ok::<JsonModel, U>(value)], keys[j])[0],
{
    lemma_flat_map_one(
        Ok::<JsonModel, U>(value),
        |item: Result<JsonModel, U>| indices_outputs(item, keys),
    );
}

/// `attr_value` gives the value of the first attribute with no prefix, no
/// namespace and that local name, and `None` exactly where there is none.
pub proof fn law_attr_value_first(attrs: Seq<AttrModel>, name: Seq<char>)
    ensures
        crate::html::attr_value(attrs, name) is None <==> forall|i: int|
            0 <= i < attrs.len() ==> !plain_attr_named(#[trigger] attrs[i], name),
        crate::html::attr_value(attrs, name) matches Some(v) ==> exists|i: int|
            0 <= i < attrs.len() && plain_attr_named(#[trigger] attrs[i], name) && attrs[i].value == v
                && forall|j: int| 0 <= j < i ==> !plain_attr_named(#[trigger] attrs[j], name),
    decreases attrs.len(),
{
    if attrs.len() > 0 {
        let rest = attrs.drop_first();
        law_attr_value_first(rest, name);
        assert forall|i: int| 0 <= i < rest.len() implies #[trigger] rest[i] == attrs[i + 1] by {}
        if !plain_attr_named(attrs[0], name) {
            if let Some(v) = crate::html::attr_value(rest, name) {
                let i = choose|i: int|
                    0 <= i < rest.len() && plain_attr_named(#[trigger] rest[i], name) && rest[i].value
                        == v && forall|j: int| 0 <= j < i ==> !plain_attr_named(#[trigger] rest[j], name);
                assert(attrs[i + 1] == rest[i]);
                assert forall|j: int| 0 <= j < i + 1 implies !plain_attr_named(#[trigger] attrs[j], name) by {
                    if j > 0 {
                        assert(attrs[j] == rest[j - 1]);
                    }
                }
            }
            assert((forall|i: int| 0 <= i < rest.len() ==> !plain_attr_named(#[trigger] rest[i], name))
                <==> (forall|i: int| 0 <= i < attrs.len() ==> !plain_attr_named(#[trigger] attrs[i], name))) by {
                if forall|i: int| 0 <= i < rest.len() ==> !plain_attr_named(#[trigger] rest[i], name) {
                    assert forall|i: int| 0 <= i < attrs.len() implies !plain_attr_named(#[trigger] attrs[i], name) by {
                        if i > 0 {
                            assert(attrs[i] == rest[i - 1]);
                        }
                    }
                }
            }
        }
    }
}

/// Reading an attribute of an element gives the value of its first
/// attribute with no prefix, no namespace and that name, whatever that
/// value is (an empty one too), and `AttrMissing` with the element exactly
/// where it has none.
pub proof fn law_attr_reads_first_plain_attribute<U>(element: ElementModel, name: Seq<char>)
    ensures
        (exists|i: int| 0 <= i < element.attrs.len() && plain_attr_named(#[trigger] element.attrs[i], name))
            ==> exists|i: int|
            0 <= i < element.attrs.len() && plain_attr_named(#[trigger] element.attrs[i], name)
                && (forall|j: int| 0 <= j < i ==> !plain_attr_named(#[trigger] element.attrs[j], name))
                && spec_attr(seq![Ok::<ElementModel, U>(element)], name) == seq![
                Ok::<Seq<char>, HtmlAttrErrorModel<U>>(element.attrs[i].value),
            ],
        (forall|i: int| 0 <= i < element.attrs.len() ==> !plain_attr_named(#[trigger] element.attrs[i], name))
            ==> spec_attr(seq![Ok::<ElementModel, U>(element)], name) == seq![
            Err::<Seq<char>, HtmlAttrErrorModel<U>>(HtmlAttrErrorModel::AttrMissing(element, name)),
        ],
{
    law_attr_value_first(element.attrs, name);
    let out = spec_attr(seq![Ok::<ElementModel, U>(element)], name);
    if let Some(v) = crate::html::attr_value(element.attrs, name) {
        let i = choose|i: int|
            0 <= i < element.attrs.len() && plain_attr_named(#[trigger] element.attrs[i], name)
                && element.attrs[i].value == v && forall|j: int|
                0 <= j < i ==> !plain_attr_named(#[trigger] element.attrs[j], name);
        assert(out =~= seq![Ok::<Seq<char>, HtmlAttrErrorModel<U>>(element.attrs[i].value)]);
    } else {
        assert(out =~= seq![
            Err::<Seq<char>, HtmlAttrErrorModel<U>>(HtmlAttrErrorModel::AttrMissing(element, name)),
        ]);
    }
}

/// Each item of `attr` is what reading the attribute of that item alone yields.
pub proof fn law_attr_item_by_item<U>(elements: ItemsModel<ElementModel, U>, name: Seq<char>, i: int)
    requires
        0 <= i < elements.len(),
    ensures
        spec_attr(elements, name)[i] == spec_attr(seq![elements[i]], name)[0],
{
}

} // verus!
