//! HTML documents and elements, and the queries made on them.
use crate::items::Duplicate;
use vstd::prelude::*;

verus! {

broadcast use vstd::seq::group_seq_axioms;

/// An HTML document, held by its source text; queries parse it.
#[derive(Debug, PartialEq)]
pub struct Document {
    pub source: String,
}

impl View for Document {
    type V = Seq<char>;

    open spec fn view(&self) -> Seq<char> {
        self.source@
    }
}

impl Duplicate for Document {
    fn duplicate(&self) -> (r: Self) {
        Document { source: self.source.clone() }
    }
}

/// An attribute of an element: its local name, its value, its prefix (as in
/// `xlink:href`) and its namespace (empty for an attribute in no namespace).
#[derive(Debug, PartialEq)]
pub struct Attr {
    pub name: String,
    pub value: String,
    pub prefix: Option<String>,
    pub namespace: String,
}

pub struct AttrModel {
    pub name: Seq<char>,
    pub value: Seq<char>,
    pub prefix: Option<Seq<char>>,
    pub namespace: Seq<char>,
}

impl View for Attr {
    type V = AttrModel;

    open spec fn view(&self) -> AttrModel {
        AttrModel {
            name: self.name@,
            value: self.value@,
            prefix: match self.prefix {
                Some(p) => Some(p@),
                None => None,
            },
            namespace: self.namespace@,
        }
    }
}

/// An HTML element: its local name and its attributes in order.
#[derive(Debug, PartialEq)]
pub struct HtmlElement {
    pub name: String,
    pub attrs: Vec<Attr>,
}

pub struct ElementModel {
    pub name: Seq<char>,
    pub attrs: Seq<AttrModel>,
}

pub open spec fn attrs_model(attrs: Seq<Attr>) -> Seq<AttrModel> {
    attrs.map_values(|a: Attr| a@)
}

impl View for HtmlElement {
    type V = ElementModel;

    open spec fn view(&self) -> ElementModel {
        ElementModel { name: self.name@, attrs: attrs_model(self.attrs@) }
    }
}

impl Duplicate for HtmlElement {
    fn duplicate(&self) -> (r: Self) {
        let mut attrs: Vec<Attr> = Vec::new();
        let mut i: usize = 0;
        while i < self.attrs.len()
            invariant
                i <= self.attrs.len(),
                attrs_model(attrs@) == attrs_model(self.attrs@.take(i as int)),
            decreases self.attrs.len() - i,
        {
            let a = &self.attrs[i];
            let prefix = match &a.prefix {
                Some(p) => Some(p.clone()),
                None => None,
            };
            let copy = Attr {
                name: a.name.clone(),
                value: a.value.clone(),
                prefix,
                namespace: a.namespace.clone(),
            };
            proof {
                let prefix = self.attrs@.take(i as int);
                assert(self.attrs@.take(i + 1) =~= prefix.push(self.attrs@[i as int]));
                assert(attrs_model(prefix.push(self.attrs@[i as int])) =~= attrs_model(prefix).push(
                    self.attrs@[i as int]@,
                ));
                assert(attrs_model(attrs@.push(copy)) =~= attrs_model(attrs@).push(copy@));
            }
            attrs.push(copy);
            i += 1;
        }
        assert(self.attrs@.take(self.attrs.len() as int) =~= self.attrs@);
        HtmlElement { name: self.name.clone(), attrs }
    }
}

/// Whether an attribute is the one `scraper` finds for `name`: no prefix, no
/// namespace, and that local name.
pub open spec fn plain_attr_named(a: AttrModel, name: Seq<char>) -> bool {
    a.prefix is None && a.namespace.len() == 0 && a.name == name
}

/// The value of the attribute named `name` with no prefix and in no
/// namespace: the first such attribute's value (an element has at most one).
pub open spec fn attr_value(attrs: Seq<AttrModel>, name: Seq<char>) -> Option<Seq<char>>
    decreases attrs.len(),
{
    if attrs.len() == 0 {
        None
    } else if plain_attr_named(attrs[0], name) {
        Some(attrs[0].value)
    } else {
        attr_value(attrs.drop_first(), name)
    }
}

proof fn lemma_attr_value_skip(attrs: Seq<AttrModel>, name: Seq<char>, i: int)
    requires
        0 <= i <= attrs.len(),
        forall|k: int|
            0 <= k < i ==> !plain_attr_named(#[trigger] attrs[k], name),
    ensures
        attr_value(attrs, name) == attr_value(attrs.subrange(i, attrs.len() as int), name),
    decreases i,
{
    if i > 0 {
        let rest = attrs.drop_first();
        assert forall|k: int| 0 <= k < i - 1 implies !plain_attr_named(#[trigger] rest[k], name) by {
            assert(rest[k] == attrs[k + 1]);
        }
        lemma_attr_value_skip(rest, name, i - 1);
        assert(rest.subrange(i - 1, rest.len() as int) =~= attrs.subrange(i, attrs.len() as int));
    } else {
        assert(attrs.subrange(0, attrs.len() as int) =~= attrs);
    }
}

impl HtmlElement {
    /// The value of the attribute `name`, as `scraper`'s `Element::attr`
    /// gives it: the attribute of that local name with no prefix and in no
    /// namespace.
    pub fn attr(&self, name: &str) -> (r: Option<String>)
        ensures
            match r {
                Some(v) => attr_value(self@.attrs, name@) == Some(v@),
                None => attr_value(self@.attrs, name@) is None,
            },
    {
        let wanted: String = name.to_owned();
        let ghost model = self@.attrs;
        let mut i: usize = 0;
        while i < self.attrs.len()
            invariant
                i <= self.attrs.len(),
                wanted@ == name@,
                model == attrs_model(self.attrs@),
                model.len() == self.attrs.len(),
                forall|k: int| 0 <= k < i ==> !plain_attr_named(#[trigger] model[k], name@),
            decreases self.attrs.len() - i,
        {
            let a = &self.attrs[i];
            if a.prefix.is_none() && a.namespace.as_str().is_empty() && a.name == wanted {
                proof {
                    lemma_attr_value_skip(model, name@, i as int);
                    assert(model.subrange(i as int, model.len() as int)[0] == model[i as int]);
                }
                return Some(a.value.clone());
            }
            i += 1;
        }
        proof {
            lemma_attr_value_skip(model, name@, i as int);
        }
        None
    }
}

/// Whether `scraper` parses `selector` as a CSS selector.
pub uninterp spec fn spec_selector_valid(selector: Seq<char>) -> bool;

/// The elements that `selector` selects in the document parsed from `source`,
/// in the order `scraper` yields them.
pub uninterp spec fn spec_selected_elements(source: Seq<char>, selector: Seq<char>) -> Seq<
    ElementModel,
>;

/// The inner HTML of each element that `selector` selects in the document
/// parsed from `source`, in the same order.
pub uninterp spec fn spec_selected_inner_html(source: Seq<char>, selector: Seq<char>) -> Seq<
    Seq<char>,
>;

/// The serialization of the root element of the document parsed from `source`.
pub uninterp spec fn spec_root_html(source: Seq<char>) -> Seq<char>;

pub open spec fn elements_model(elements: Seq<HtmlElement>) -> Seq<ElementModel> {
    elements.map_values(|e: HtmlElement| e@)
}

pub open spec fn strings_model(strings: Seq<String>) -> Seq<Seq<char>> {
    strings.map_values(|s: String| s@)
}

/// `scraper::Selector::parse(selector).is_ok()`: whether `selector` is a
/// CSS selector that `scraper` accepts; which ones those are is left to the name.
#[verifier::external_body]
pub(crate) fn selector_is_valid(selector: &str) -> (b: bool)
    ensures
        b == spec_selector_valid(selector@),
{
    scraper::Selector::parse(selector).is_ok()
}

#[verifier::external_type_specification]
#[verifier::external_body]
pub struct ExScraperElement(scraper::node::Element);

/// Turns a `scraper` element into an `HtmlElement`, field by field: the
/// element's local name, and each attribute's local name, value, prefix and
/// namespace.
#[verifier::external_body]
fn element_of(e: &scraper::node::Element) -> HtmlElement {
    HtmlElement {
        name: e.name().to_string(),
        attrs: e.attrs.iter().map(
            |(q, v)| Attr {
                name: q.local.to_string(),
                value: v.to_string(),
                prefix: q.prefix.as_ref().map(|p| p.to_string()),
                namespace: q.ns.to_string(),
            },
        ).collect(),
    }
}

/// Parses `source` with `scraper::Html::parse_document`, selects with
/// `Html::select` what `selector` (parsed by `Selector::parse`) matches, and
/// gives each selected element (`ElementRef::value`), its inner HTML
/// (`ElementRef::inner_html`), and the HTML of the root element
/// (`Html::root_element`, `ElementRef::html`). All three depend on `source`
/// and `selector` alone; what they are is left to the names. Both lists come
/// from the same selection, so they have the same length.
#[verifier::external_body]
pub(crate) fn select_in(source: &str, selector: &str) -> (r: (Vec<HtmlElement>, Vec<String>, String))
    requires
        spec_selector_valid(selector@),
    ensures
        elements_model(r.0@) == spec_selected_elements(source@, selector@),
        strings_model(r.1@) == spec_selected_inner_html(source@, selector@),
        r.2@ == spec_root_html(source@),
        r.0.len() == r.1.len(),
{
    let document = scraper::Html::parse_document(source);
    let selector = scraper::Selector::parse(selector).unwrap();
    let selected: Vec<scraper::ElementRef> = document.select(&selector).collect();
    let elements = selected.iter().map(|e| element_of(e.value())).collect();
    let inner = selected.iter().map(|e| e.inner_html()).collect();
    (elements, inner, document.root_element().html())
}

} // verus!
