//! The library's error type and what an HTTP client is answered for it.
use vstd::prelude::*;

use crate::doc::{entry_models, lemma_entry_models_push, str_value, Tree, Value};
use crate::text::{concat2, owned};

verus! {

/// An error of the orchestrator: each variant carries its message.
#[derive(Debug, Clone, PartialEq, Eq)]
pub enum OaasError {
    /// Configuration or user input.
    Config(String),
    /// Local input/output.
    Io(String),
    /// An HTTP client failure.
    Http(String),
    /// A backend process or file operation.
    Backend(String),
}

/// The mathematical model of an [`OaasError`].
pub enum ErrorModel {
    Config(Seq<char>),
    Io(Seq<char>),
    Http(Seq<char>),
    Backend(Seq<char>),
}

impl OaasError {
    pub open spec fn model(self) -> ErrorModel {
        match self {
            OaasError::Config(m) => ErrorModel::Config(m@),
            OaasError::Io(m) => ErrorModel::Io(m@),
            OaasError::Http(m) => ErrorModel::Http(m@),
            OaasError::Backend(m) => ErrorModel::Backend(m@),
        }
    }

    /// A configuration error with message `msg`.
    pub fn config(msg: &str) -> (e: OaasError)
        ensures
            e.model() == ErrorModel::Config(msg@),
    {
        OaasError::Config(owned(msg))
    }

    /// A backend error with message `msg`.
    pub fn backend(msg: &str) -> (e: OaasError)
        ensures
            e.model() == ErrorModel::Backend(msg@),
    {
        OaasError::Backend(owned(msg))
    }

    /// The HTTP status an error is answered with: 400 for configuration and
    /// backend errors, 500 for input/output, 502 for the HTTP client.
    pub fn http_status(&self) -> (code: u16)
        ensures
            code == match self.model() {
                ErrorModel::Config(_) | ErrorModel::Backend(_) => 400u16,
                ErrorModel::Io(_) => 500u16,
                ErrorModel::Http(_) => 502u16,
            },
    {
        match self {
            OaasError::Config(_) | OaasError::Backend(_) => 400,
            OaasError::Io(_) => 500,
            OaasError::Http(_) => 502,
        }
    }

    /// The text of the error: a prefix naming its kind, then its message.
    pub fn to_text(&self) -> (s: String)
        ensures
            s@ == error_text(self.model()),
    {
        match self {
            OaasError::Config(m) => concat2("configuration: ", m.as_str()),
            OaasError::Io(m) => concat2("IO: ", m.as_str()),
            OaasError::Http(m) => concat2("HTTP client: ", m.as_str()),
            OaasError::Backend(m) => concat2("backend: ", m.as_str()),
        }
    }

    /// The JSON body an HTTP client receives for this error:
    /// `{"error": {"message": <text>, "type": "oaas_error"}}`.
    pub fn response_body(&self) -> (v: Value)
        ensures
            v.model() == error_body(error_text(self.model())),
    {
        let mut inner: Vec<(Value, Value)> = Vec::new();
        let e1 = (str_value("message"), Value::Str(self.to_text()));
        let e2 = (str_value("type"), str_value("oaas_error"));
        proof {
            lemma_entry_models_push(inner@, e1);
            lemma_entry_models_push(inner@.push(e1), e2);
        }
        inner.push(e1);
        inner.push(e2);
        let mut outer: Vec<(Value, Value)> = Vec::new();
        let e3 = (str_value("error"), Value::Mapping(inner));
        proof {
            lemma_entry_models_push(outer@, e3);
        }
        outer.push(e3);
        assert(entry_models(inner@) =~= seq![
            (Tree::Str("message"@), Tree::Str(error_text(self.model()))),
            (Tree::Str("type"@), Tree::Str("oaas_error"@)),
        ]);
        Value::Mapping(outer)
    }
}

/// The text of an error (its `Display` form).
pub open spec fn error_text(e: ErrorModel) -> Seq<char> {
    match e {
        ErrorModel::Config(m) => "configuration: "@ + m,
        ErrorModel::Io(m) => "IO: "@ + m,
        ErrorModel::Http(m) => "HTTP client: "@ + m,
        ErrorModel::Backend(m) => "backend: "@ + m,
    }
}

/// The JSON body of an error response carrying `text`.
pub open spec fn error_body(text: Seq<char>) -> Tree {
    Tree::Mapping(
        seq![(Tree::Str("error"@), Tree::Mapping(seq![
            (Tree::Str("message"@), Tree::Str(text)),
            (Tree::Str("type"@), Tree::Str("oaas_error"@)),
        ]))],
    )
}

} // verus!
