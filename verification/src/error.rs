//! The closed set of failures the store can report, and how each is rendered.

use crate::json::json_error_text;
use vstd::prelude::*;
use vstd::std_specs::convert::FromSpecImpl;
use vstd::string::*;

verus! {

/// Failures raised by the store's own rules.
#[derive(Debug)]
pub enum StoreErrorKind {
    /// The named entry does not exist in the store.
    KeyNotFound(String),
}

impl StoreErrorKind {
    /// The text this failure is rendered as.
    pub open spec fn message(self) -> Seq<char> {
        match self {
            StoreErrorKind::KeyNotFound(key) => "Key not found: "@ + key@,
        }
    }

    /// Renders the failure as a single line.
    pub fn to_string(&self) -> (text: String)
        ensures
            text@ == self.message(),
    {
        match self {
            StoreErrorKind::KeyNotFound(key) => {
                let mut text = String::from_str("Key not found: ");
                text.append(key.as_str());
                text
            },
        }
    }
}

/// A failed filesystem operation, as the caller that performed it reports it.
#[derive(Debug)]
pub struct IoFailure {
    /// The file or directory that was asked for does not exist.
    pub not_found: bool,
    /// The underlying cause, as text.
    pub cause: String,
}

/// Everything that can go wrong while using the store.
#[derive(Debug)]
pub enum StoreError {
    /// A filesystem operation failed.
    Io(IoFailure),
    /// The persisted content is not a JSON object of strings.
    Json(serde_json::Error),
    /// The store's own rules refused the operation.
    App(StoreErrorKind),
}

impl StoreError {
    /// What the rendering of this failure starts with. For `Io` and `App`
    /// this is the whole line; for `Json` the decoder's own words follow.
    pub open spec fn message_head(self) -> Seq<char> {
        match self {
            StoreError::Io(failure) => if failure.not_found {
                "File not found"@
            } else {
                "IO error: "@ + failure.cause@
            },
            StoreError::Json(_) => "JSON error: "@,
            StoreError::App(kind) => "Application error: "@ + kind.message(),
        }
    }

    /// Renders the failure as a single line.
    pub fn to_string(&self) -> (text: String)
        ensures
            self.message_head().is_prefix_of(text@),
            !(self is Json) ==> text@ == self.message_head(),
    {
        match self {
            StoreError::Io(failure) => {
                if failure.not_found {
                    String::from_str("File not found")
                } else {
                    let mut text = String::from_str("IO error: ");
                    text.append(failure.cause.as_str());
                    text
                }
            },
            StoreError::Json(error) => {
                let mut text = String::from_str("JSON error: ");
                let detail = json_error_text(error);
                text.append(detail.as_str());
                text
            },
            StoreError::App(kind) => {
                let mut text = String::from_str("Application error: ");
                let detail = kind.to_string();
                text.append(detail.as_str());
                text
            },
        }
    }
}

impl From<serde_json::Error> for StoreError {
    fn from(error: serde_json::Error) -> (converted: StoreError) {
        StoreError::Json(error)
    }
}

impl FromSpecImpl<serde_json::Error> for StoreError {
    open spec fn obeys_from_spec() -> bool {
        true
    }

    open spec fn from_spec(error: serde_json::Error) -> StoreError {
        StoreError::Json(error)
    }
}

impl From<IoFailure> for StoreError {
    fn from(failure: IoFailure) -> (converted: StoreError) {
        StoreError::Io(failure)
    }
}

impl FromSpecImpl<IoFailure> for StoreError {
    open spec fn obeys_from_spec() -> bool {
        true
    }

    open spec fn from_spec(failure: IoFailure) -> StoreError {
        StoreError::Io(failure)
    }
}

} // verus!
