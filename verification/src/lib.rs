//! Extraction of data from web pages as a pipeline of stages: fetch a page,
//! read it as HTML, select elements, read attributes or content, parse JSON,
//! JavaScript values or JSONP, read fields and strings, and resolve links.
//!
//! A value of the pipeline is the sequence of results it yields
//! (`stages::Items`); each stage reads one value and yields another, and
//! passes every error it reads on, wrapped, so that it reaches the end.
//! Every stage states, over models, exactly what it yields.
use vstd::prelude::*;

pub mod errors;
pub mod html;
pub mod http;
pub mod items;
pub mod laws;
pub mod json;
pub mod links;
pub mod run;
pub mod stages;
pub mod text;
pub mod workshop;

verus! {
} // verus!
