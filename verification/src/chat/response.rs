//! Responses, and the texts of the errors that the server reports.
use crate::chat::request::{ParseError, ParseErrorView};
use std::sync::Arc;
use vstd::prelude::*;

verus! {

/// What the server tells a client.
#[derive(Clone, Debug, Eq, PartialEq)]
pub enum Response {
    /// A post, relayed to a member of its group.
    Message { group_name: Arc<String>, message: Arc<String> },
    /// A problem, reported to the client that caused it.
    Error(String),
}

/// A response as plain text.
pub enum ResponseView {
    Message { group_name: Seq<char>, message: Seq<char> },
    Error(Seq<char>),
}

impl View for Response {
    type V = ResponseView;

    open spec fn view(&self) -> ResponseView {
        match self {
            Response::Message { group_name, message } => ResponseView::Message {
                group_name: group_name@,
                message: message@,
            },
            Response::Error(text) => ResponseView::Error(text@),
        }
    }
}

/// The text that reports a post to a group that does not exist.
pub open spec fn wrong_group_text(group_name: Seq<char>) -> Seq<char> {
    "wrong group: "@ + group_name
}

/// The text that reports a line that is no request.
pub open spec fn parse_error_text(e: ParseErrorView) -> Seq<char> {
    match e {
        ParseErrorView::UnsupportedCommand { command } => "unsupported command: "@ + command,
        ParseErrorView::InvalidRequest { line } => "invalid request: "@ + line,
    }
}

/// `prefix` followed by `rest`.
fn prefixed(prefix: &str, rest: &str) -> (r: String)
    ensures
        r@ == prefix@ + rest@,
{
    let mut text = prefix.to_owned();
    text.append(rest);
    text
}

impl Response {
    /// The report of a post to a group that does not exist.
    pub fn wrong_group(group_name: &str) -> (r: Response)
        ensures
            r@ == ResponseView::Error(wrong_group_text(group_name@)),
    {
        Response::Error(prefixed("wrong group: ", group_name))
    }

    /// The report of a line that is no request.
    pub fn parse_error(e: &ParseError) -> (r: Response)
        ensures
            r@ == ResponseView::Error(parse_error_text(e@)),
    {
        match e {
            ParseError::UnsupportedCommand { command } => Response::Error(
                prefixed("unsupported command: ", command.as_str()),
            ),
            ParseError::InvalidRequest { line } => Response::Error(
                prefixed("invalid request: ", line.as_str()),
            ),
        }
    }
}

} // verus!
