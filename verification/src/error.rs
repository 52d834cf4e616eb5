//! Errors reported by the library and the messages shown to the user.
use vstd::prelude::*;

use crate::text::{concat2, owned, trim, trim_chars, chars_of, string_from_chars};

verus! {

/// A failed Kubernetes API call, as far as the user-facing text depends on it.
#[derive(Debug)]
pub enum ApiError {
    /// The API server answered with an error status.
    Status {
        /// HTTP status code of the response.
        code: u16,
        /// The server's message.
        message: String,
        /// The complete rendered error text.
        text: String,
    },
    /// Any other client-side failure, rendered as text.
    Other(String),
}

impl ApiError {
    /// The rendered error text.
    pub open spec fn text_of(self) -> Seq<char> {
        match self {
            ApiError::Status { text, .. } => text@,
            ApiError::Other(t) => t@,
        }
    }
}

/// Errors of the cluster engine.
#[derive(Debug)]
pub enum Error {
    /// The kubeconfig could not be read (rendered reason).
    Kubeconfig(String),
    /// A Kubernetes API call failed.
    Api(ApiError),
    /// A manifest could not be (de)serialized (rendered reason).
    Serialization(String),
    /// No kubeconfig context is available.
    NoActiveContext,
    /// A resource does not exist.
    NotFound { kind: String, name: String, namespace: String },
    /// Any other failure.
    Message(String),
}

/// The text that `Display` renders for an error.
pub open spec fn error_text(e: Error) -> Seq<char> {
    match e {
        Error::Kubeconfig(t) => "kubeconfig: "@ + t@,
        Error::Api(a) => "kubernetes API: "@ + a.text_of(),
        Error::Serialization(t) => "serialization: "@ + t@,
        Error::NoActiveContext => "no active cluster context"@,
        Error::NotFound { kind, name, namespace } => "resource not found: "@ + kind@ + "/"@
            + name@ + " in namespace "@ + namespace@,
        Error::Message(t) => t@,
    }
}

/// The short message shown to the user for an error.
pub open spec fn user_message_spec(e: Error) -> Seq<char> {
    match e {
        Error::Api(ApiError::Status { code, message, .. }) => if code == 401 {
            "Authentication failed. Check your kubeconfig credentials."@
        } else if code == 403 {
            "Permission denied: "@ + trim(message@)
        } else if code == 404 {
            "Resource not found."@
        } else {
            error_text(e)
        },
        _ => error_text(e),
    }
}

impl Error {
    /// The text `Display` renders for this error.
    pub fn to_display_string(&self) -> (r: String)
        ensures
            r@ == error_text(*self),
    {
        match self {
            Error::Kubeconfig(t) => concat2("kubeconfig: ", t.as_str()),
            Error::Api(a) => {
                let t = match a {
                    ApiError::Status { text, .. } => text,
                    ApiError::Other(t) => t,
                };
                concat2("kubernetes API: ", t.as_str())
            },
            Error::Serialization(t) => concat2("serialization: ", t.as_str()),
            Error::NoActiveContext => owned("no active cluster context"),
            Error::NotFound { kind, name, namespace } => {
                let mut r = String::new();
                r.append("resource not found: ");
                r.append(kind.as_str());
                r.append("/");
                r.append(name.as_str());
                r.append(" in namespace ");
                r.append(namespace.as_str());
                r
            },
            Error::Message(t) => owned(t.as_str()),
        }
    }

    /// A short message for the user: friendly texts for authentication,
    /// permission and not-found API failures, the full error text otherwise.
    pub fn user_message(&self) -> (r: String)
        ensures
            r@ == user_message_spec(*self),
    {
        if let Error::Api(ApiError::Status { code, message, .. }) = self {
            if *code == 401 {
                return owned("Authentication failed. Check your kubeconfig credentials.");
            } else if *code == 403 {
                let m = chars_of(message.as_str());
                let t = trim_chars(&m);
                let ts = string_from_chars(&t);
                return concat2("Permission denied: ", ts.as_str());
            } else if *code == 404 {
                return owned("Resource not found.");
            }
        }
        self.to_display_string()
    }
}

} // verus!
