//! The ways in which a fetch fails.

use crate::api::StoryListType;
use crate::text::decimal_string;
use crate::text::join2;
use crate::text::spec_decimal;
use vstd::prelude::*;
use vstd::string::StringExecFns;

verus! {

/// The operation of the fetch service during which a failure came up.
#[derive(Debug, Clone, Copy, PartialEq, Eq, Structural)]
pub enum Operation {
    /// Fetching the ids of a story list.
    StoryIds(StoryListType),
    /// Fetching the story with this id.
    Story(u32),
    /// Fetching the comment with this id.
    Comment(u32),
}

impl Operation {
    /// The sentence that reports the failure of the operation.
    pub open spec fn spec_failure_text(self) -> Seq<char> {
        match self {
            Operation::StoryIds(list_type) => "fetch_story_ids failed for list "@
                + list_type.spec_label(),
            Operation::Story(id) => "fetch_story_content failed for id "@ + spec_decimal(id as nat),
            Operation::Comment(id) => "fetch_comment_content failed for id "@ + spec_decimal(
                id as nat,
            ),
        }
    }

    /// Writes the sentence that reports the failure of the operation.
    pub fn failure_text(&self) -> (text: String)
        ensures
            text@ == self.spec_failure_text(),
    {
        match self {
            Operation::StoryIds(list_type) => join2(
                "fetch_story_ids failed for list ",
                list_type.label(),
            ),
            Operation::Story(id) => {
                let number = decimal_string(*id as u64);
                join2("fetch_story_content failed for id ", number.as_str())
            },
            Operation::Comment(id) => {
                let number = decimal_string(*id as u64);
                join2("fetch_comment_content failed for id ", number.as_str())
            },
        }
    }
}

/// A fetch that did not yield its value.
#[derive(Debug)]
pub enum FetchError {
    /// The caller's cancellation signal fired.
    Cancelled,
    /// The request failed on the network, at once or after its retries.
    /// `message` is the failure as the shared fetch reported it.
    Network { operation: Option<Operation>, message: String },
    /// The body of the response was not the JSON that was expected.
    Parse { operation: Option<Operation>, url: String, message: String },
}

impl FetchError {
    /// The error with `operation` recorded as the one that failed. A
    /// cancellation stays what it is.
    pub open spec fn spec_during(self, operation: Operation) -> FetchError {
        match self {
            FetchError::Cancelled => FetchError::Cancelled,
            FetchError::Network { operation: _, message } => FetchError::Network {
                operation: Some(operation),
                message,
            },
            FetchError::Parse { operation: _, url, message } => FetchError::Parse {
                operation: Some(operation),
                url,
                message,
            },
        }
    }

    /// The text that reports the error: for a cancellation that the request
    /// was cancelled, else the failure of the operation if one is recorded,
    /// else the failure itself.
    pub open spec fn spec_message(self) -> Seq<char> {
        match self {
            FetchError::Cancelled => "Request cancelled"@,
            FetchError::Network { operation: Some(op), message } => op.spec_failure_text(),
            FetchError::Network { operation: None, message } => message@,
            FetchError::Parse { operation: Some(op), url, message } => op.spec_failure_text(),
            FetchError::Parse { operation: None, url, message } => "failed to parse JSON response from "@
                + url@,
        }
    }

    /// A network failure reported as `message`, with no operation recorded.
    pub fn network(message: String) -> (error: FetchError)
        ensures
            error == (FetchError::Network { operation: None, message }),
    {
        FetchError::Network { operation: None, message }
    }

    /// A body from `url` that could not be decoded, for the reason
    /// `message`, with no operation recorded.
    pub fn parse(url: &str, message: String) -> (error: FetchError)
        ensures
            error matches FetchError::Parse { operation: None, url: u, message: m } && u@ == url@
                && m == message,
    {
        FetchError::Parse { operation: None, url: String::from_str(url), message }
    }

    /// Records `operation` as the one that failed.
    pub fn during(self, operation: Operation) -> (error: FetchError)
        ensures
            error == self.spec_during(operation),
    {
        match self {
            FetchError::Cancelled => FetchError::Cancelled,
            FetchError::Network { operation: _, message } => FetchError::Network {
                operation: Some(operation),
                message,
            },
            FetchError::Parse { operation: _, url, message } => FetchError::Parse {
                operation: Some(operation),
                url,
                message,
            },
        }
    }

    /// Whether the error is a cancellation.
    pub fn is_cancelled(&self) -> (cancelled: bool)
        ensures
            cancelled == (*self is Cancelled),
    {
        match self {
            FetchError::Cancelled => true,
            _ => false,
        }
    }

    /// Writes the text that reports the error.
    pub fn message(&self) -> (text: String)
        ensures
            text@ == self.spec_message(),
    {
        match self {
            FetchError::Cancelled => String::from_str("Request cancelled"),
            FetchError::Network { operation: Some(op), message: _ } => op.failure_text(),
            FetchError::Network { operation: None, message } => message.clone(),
            FetchError::Parse { operation: Some(op), url: _, message: _ } => op.failure_text(),
            FetchError::Parse { operation: None, url, message: _ } => join2(
                "failed to parse JSON response from ",
                url.as_str(),
            ),
        }
    }
}

} // verus!
