//! Fetching pages.
use crate::items::Duplicate;
use vstd::prelude::*;

verus! {

/// The error a client reports when it cannot fetch a page.
#[derive(Debug, PartialEq)]
pub enum ClientError {
    Generic(String),
}

pub enum ClientErrorModel {
    Generic(Seq<char>),
}

impl View for ClientError {
    type V = ClientErrorModel;

    open spec fn view(&self) -> ClientErrorModel {
        match self {
            ClientError::Generic(m) => ClientErrorModel::Generic(m@),
        }
    }
}

impl Duplicate for ClientError {
    fn duplicate(&self) -> (r: Self) {
        match self {
            ClientError::Generic(m) => ClientError::Generic(m.clone()),
        }
    }
}

impl ClientError {
    /// The message of the error.
    pub fn to_string(&self) -> (r: String)
        ensures
            match self@ {
                ClientErrorModel::Generic(m) => r@ == m,
            },
    {
        match self {
            ClientError::Generic(m) => m.clone(),
        }
    }
}

/// A client that fetches the page at an address. What it answers depends on
/// the network; `answers` is the relation between an address and the answers
/// the client may give for it, which each client defines for itself.
pub trait Client {
    /// Whether `r` is an answer this client may give for the address `url`.
    /// A client that says nothing of its answers may give any.
    open spec fn answers(&self, url: Seq<char>, r: Result<Seq<char>, ClientErrorModel>) -> bool {
        true
    }

    /// Fetches the page at `url`: its body, or the error met.
    fn get(&self, url: &str) -> (r: Result<String, ClientError>)
        ensures
            self.answers(url@, client_result_model(r)),
    ;
}

/// The model of what a client answers.
pub open spec fn client_result_model(r: Result<String, ClientError>) -> Result<
    Seq<char>,
    ClientErrorModel,
> {
    match r {
        Ok(body) => Ok(body@),
        Err(e) => Err(e@),
    }
}

} // verus!
