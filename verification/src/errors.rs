//! The errors each stage of the pipeline reports, and their models.
//!
//! Each stage wraps the error of the value it reads in `Upstream`, so that an
//! error is passed on, stage after stage, to the end of the pipeline.
use crate::html::{ElementModel, HtmlElement};
use crate::http::{ClientError, ClientErrorModel};
use crate::items::Duplicate;
use crate::json::{copy_fields, fields_model, Json, JsonMap, JsonModel};
use vstd::prelude::*;

verus! {

/// The error of a value made of two: an error of the first or of the second.
#[derive(Debug, PartialEq)]
pub enum EitherError<A, B> {
    A(A),
    B(B),
}

impl<A: View, B: View> View for EitherError<A, B> {
    type V = EitherError<A::V, B::V>;

    open spec fn view(&self) -> EitherError<A::V, B::V> {
        match self {
            EitherError::A(a) => EitherError::A(a@),
            EitherError::B(b) => EitherError::B(b@),
        }
    }
}

impl<A: Duplicate, B: Duplicate> Duplicate for EitherError<A, B> {
    fn duplicate(&self) -> (r: Self) {
        match self {
            EitherError::A(a) => EitherError::A(a.duplicate()),
            EitherError::B(b) => EitherError::B(b.duplicate()),
        }
    }
}

/// The error of fetching a page.
#[derive(Debug, PartialEq)]
pub enum WebpageValueError<U> {
    Upstream(U),
    Http(ClientError),
}

pub enum WebpageErrorModel<U> {
    Upstream(U),
    Http(ClientErrorModel),
}

impl<U: View> View for WebpageValueError<U> {
    type V = WebpageErrorModel<U::V>;

    open spec fn view(&self) -> WebpageErrorModel<U::V> {
        match self {
            WebpageValueError::Upstream(u) => WebpageErrorModel::Upstream(u@),
            WebpageValueError::Http(c) => WebpageErrorModel::Http(c@),
        }
    }
}

impl<U: Duplicate> Duplicate for WebpageValueError<U> {
    fn duplicate(&self) -> (r: Self) {
        match self {
            WebpageValueError::Upstream(u) => WebpageValueError::Upstream(u.duplicate()),
            WebpageValueError::Http(c) => WebpageValueError::Http(c.duplicate()),
        }
    }
}

/// The error of selecting elements: no element matched the selector in the
/// document, whose root element's HTML is given.
#[derive(Debug, PartialEq)]
pub enum HtmlElementValueError<U> {
    Upstream(U),
    ElementMissing(&'static str, String),
}

pub enum HtmlElementErrorModel<U> {
    Upstream(U),
    ElementMissing(Seq<char>, Seq<char>),
}

impl<U: View> View for HtmlElementValueError<U> {
    type V = HtmlElementErrorModel<U::V>;

    open spec fn view(&self) -> HtmlElementErrorModel<U::V> {
        match self {
            HtmlElementValueError::Upstream(u) => HtmlElementErrorModel::Upstream(u@),
            HtmlElementValueError::ElementMissing(s, h) => HtmlElementErrorModel::ElementMissing(
                s@,
                h@,
            ),
        }
    }
}

impl<U: Duplicate> Duplicate for HtmlElementValueError<U> {
    fn duplicate(&self) -> (r: Self) {
        match self {
            HtmlElementValueError::Upstream(u) => HtmlElementValueError::Upstream(u.duplicate()),
            HtmlElementValueError::ElementMissing(s, h) => HtmlElementValueError::ElementMissing(
                *s,
                h.clone(),
            ),
        }
    }
}

/// The error of reading the content of elements: no element matched.
#[derive(Debug, PartialEq)]
pub enum HtmlContentValueError<U> {
    Upstream(U),
    ElementMissing(&'static str, String),
}

pub enum HtmlContentErrorModel<U> {
    Upstream(U),
    ElementMissing(Seq<char>, Seq<char>),
}

impl<U: View> View for HtmlContentValueError<U> {
    type V = HtmlContentErrorModel<U::V>;

    open spec fn view(&self) -> HtmlContentErrorModel<U::V> {
        match self {
            HtmlContentValueError::Upstream(u) => HtmlContentErrorModel::Upstream(u@),
            HtmlContentValueError::ElementMissing(s, h) => HtmlContentErrorModel::ElementMissing(
                s@,
                h@,
            ),
        }
    }
}

impl<U: Duplicate> Duplicate for HtmlContentValueError<U> {
    fn duplicate(&self) -> (r: Self) {
        match self {
            HtmlContentValueError::Upstream(u) => HtmlContentValueError::Upstream(u.duplicate()),
            HtmlContentValueError::ElementMissing(s, h) => HtmlContentValueError::ElementMissing(
                *s,
                h.clone(),
            ),
        }
    }
}

/// The error of reading an attribute: the element has no attribute of that name.
#[derive(Debug, PartialEq)]
pub enum HtmlAttrValueError<U> {
    Upstream(U),
    AttrMissing(HtmlElement, &'static str),
}

pub enum HtmlAttrErrorModel<U> {
    Upstream(U),
    AttrMissing(ElementModel, Seq<char>),
}

impl<U: View> View for HtmlAttrValueError<U> {
    type V = HtmlAttrErrorModel<U::V>;

    open spec fn view(&self) -> HtmlAttrErrorModel<U::V> {
        match self {
            HtmlAttrValueError::Upstream(u) => HtmlAttrErrorModel::Upstream(u@),
            HtmlAttrValueError::AttrMissing(e, n) => HtmlAttrErrorModel::AttrMissing(e@, n@),
        }
    }
}

impl<U: Duplicate> Duplicate for HtmlAttrValueError<U> {
    fn duplicate(&self) -> (r: Self) {
        match self {
            HtmlAttrValueError::Upstream(u) => HtmlAttrValueError::Upstream(u.duplicate()),
            HtmlAttrValueError::AttrMissing(e, n) => HtmlAttrValueError::AttrMissing(
                e.duplicate(),
                *n,
            ),
        }
    }
}

/// The error of parsing JSON: the text, and the parser's message.
#[derive(Debug, PartialEq)]
pub enum JsonValueError<U> {
    Upstream(U),
    NotJson(String, String),
}

/// The error of parsing a JavaScript value: the text as parsed, and the parser's message.
#[derive(Debug, PartialEq)]
pub enum JsValueError<U> {
    Upstream(U),
    NotJs(String, String),
}

/// The error of reading JSONP: the text, and what went wrong.
#[derive(Debug, PartialEq)]
pub enum JsonpValueError<U> {
    Upstream(U),
    NotJsonp(String, String),
}

/// The model of the errors of parsing: the error passed on, or the text and the message.
pub enum ParseErrorModel<U> {
    Upstream(U),
    NotParsed(Seq<char>, Seq<char>),
}

impl<U: View> View for JsonValueError<U> {
    type V = ParseErrorModel<U::V>;

    open spec fn view(&self) -> ParseErrorModel<U::V> {
        match self {
            JsonValueError::Upstream(u) => ParseErrorModel::Upstream(u@),
            JsonValueError::NotJson(t, m) => ParseErrorModel::NotParsed(t@, m@),
        }
    }
}

impl<U: Duplicate> Duplicate for JsonValueError<U> {
    fn duplicate(&self) -> (r: Self) {
        match self {
            JsonValueError::Upstream(u) => JsonValueError::Upstream(u.duplicate()),
            JsonValueError::NotJson(t, m) => JsonValueError::NotJson(t.clone(), m.clone()),
        }
    }
}

impl<U: View> View for JsValueError<U> {
    type V = ParseErrorModel<U::V>;

    open spec fn view(&self) -> ParseErrorModel<U::V> {
        match self {
            JsValueError::Upstream(u) => ParseErrorModel::Upstream(u@),
            JsValueError::NotJs(t, m) => ParseErrorModel::NotParsed(t@, m@),
        }
    }
}

impl<U: Duplicate> Duplicate for JsValueError<U> {
    fn duplicate(&self) -> (r: Self) {
        match self {
            JsValueError::Upstream(u) => JsValueError::Upstream(u.duplicate()),
            JsValueError::NotJs(t, m) => JsValueError::NotJs(t.clone(), m.clone()),
        }
    }
}

impl<U: View> View for JsonpValueError<U> {
    type V = ParseErrorModel<U::V>;

    open spec fn view(&self) -> ParseErrorModel<U::V> {
        match self {
            JsonpValueError::Upstream(u) => ParseErrorModel::Upstream(u@),
            JsonpValueError::NotJsonp(t, m) => ParseErrorModel::NotParsed(t@, m@),
        }
    }
}

impl<U: Duplicate> Duplicate for JsonpValueError<U> {
    fn duplicate(&self) -> (r: Self) {
        match self {
            JsonpValueError::Upstream(u) => JsonpValueError::Upstream(u.duplicate()),
            JsonpValueError::NotJsonp(t, m) => JsonpValueError::NotJsonp(t.clone(), m.clone()),
        }
    }
}

/// The error of indexing a JSON value: the key is missing from the object
/// (whose fields are given), or the value is not of the kind named.
#[derive(Debug, PartialEq)]
pub enum IndexValueError<U> {
    Upstream(U),
    MissingKey(String, JsonMap),
    WrongType(&'static str, Json),
}

pub enum IndexErrorModel<U> {
    Upstream(U),
    MissingKey(Seq<char>, Seq<(Seq<char>, JsonModel)>),
    WrongType(Seq<char>, JsonModel),
}

impl<U: View> View for IndexValueError<U> {
    type V = IndexErrorModel<U::V>;

    open spec fn view(&self) -> IndexErrorModel<U::V> {
        match self {
            IndexValueError::Upstream(u) => IndexErrorModel::Upstream(u@),
            IndexValueError::MissingKey(k, m) => IndexErrorModel::MissingKey(k@, fields_model(m@)),
            IndexValueError::WrongType(t, v) => IndexErrorModel::WrongType(t@, v@),
        }
    }
}

impl<U: Duplicate> Duplicate for IndexValueError<U> {
    fn duplicate(&self) -> (r: Self) {
        match self {
            IndexValueError::Upstream(u) => IndexValueError::Upstream(u.duplicate()),
            IndexValueError::MissingKey(k, m) => IndexValueError::MissingKey(
                k.clone(),
                copy_fields(m),
            ),
            IndexValueError::WrongType(t, v) => IndexValueError::WrongType(*t, v.copy()),
        }
    }
}

/// The error of reading a JSON string: the value is not of the kind named.
#[derive(Debug, PartialEq)]
pub enum JsonStringValueError<U> {
    Upstream(U),
    WrongType(&'static str, Json),
}

pub enum JsonStringErrorModel<U> {
    Upstream(U),
    WrongType(Seq<char>, JsonModel),
}

impl<U: View> View for JsonStringValueError<U> {
    type V = JsonStringErrorModel<U::V>;

    open spec fn view(&self) -> JsonStringErrorModel<U::V> {
        match self {
            JsonStringValueError::Upstream(u) => JsonStringErrorModel::Upstream(u@),
            JsonStringValueError::WrongType(t, v) => JsonStringErrorModel::WrongType(t@, v@),
        }
    }
}

impl<U: Duplicate> Duplicate for JsonStringValueError<U> {
    fn duplicate(&self) -> (r: Self) {
        match self {
            JsonStringValueError::Upstream(u) => JsonStringValueError::Upstream(u.duplicate()),
            JsonStringValueError::WrongType(t, v) => JsonStringValueError::WrongType(*t, v.copy()),
        }
    }
}

/// The error of resolving a link: the link's error, the base's error, or the
/// error `url` reports for the base given.
#[derive(Debug, PartialEq)]
pub enum RelativeToError<U, B> {
    Upstream(U),
    Base(B),
    UrlParseError(String, url::ParseError),
}

pub enum RelativeToErrorModel<U, B> {
    Upstream(U),
    Base(B),
    UrlParseError(Seq<char>, url::ParseError),
}

impl<U: View, B: View> View for RelativeToError<U, B> {
    type V = RelativeToErrorModel<U::V, B::V>;

    open spec fn view(&self) -> RelativeToErrorModel<U::V, B::V> {
        match self {
            RelativeToError::Upstream(u) => RelativeToErrorModel::Upstream(u@),
            RelativeToError::Base(b) => RelativeToErrorModel::Base(b@),
            RelativeToError::UrlParseError(s, e) => RelativeToErrorModel::UrlParseError(s@, *e),
        }
    }
}

impl<U: Duplicate, B: Duplicate> Duplicate for RelativeToError<U, B> {
    fn duplicate(&self) -> (r: Self) {
        match self {
            RelativeToError::Upstream(u) => RelativeToError::Upstream(u.duplicate()),
            RelativeToError::Base(b) => RelativeToError::Base(b.duplicate()),
            RelativeToError::UrlParseError(s, e) => RelativeToError::UrlParseError(s.clone(), *e),
        }
    }
}

} // verus!
