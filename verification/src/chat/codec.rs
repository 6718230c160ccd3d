//! The response lines: each response is written as one line of JSON, and
//! read back from it.
//!
//! A message is written `{"Message":{"group_name":"..","message":".."}}`
//! and an error `{"Error":".."}`. The string literals are written and read
//! by `serde_json`; the frame around them is this module's.
use crate::chat::json::{
    escaped,
    find_literal_end, lemma_escaped_plain, lemma_literal_end, literal_end, quoted,
};
use crate::chat::response::{Response, ResponseView};
use crate::chat::text::chars_of;
use std::sync::Arc;
use vstd::prelude::*;

verus! {

/// The error of the JSON library.
#[verifier::external_type_specification]
#[verifier::external_body]
pub struct ExJsonError(serde_json::Error);

/// Why a response was not written or read.
#[derive(Clone, Copy, Debug, PartialEq, Eq, Structural)]
pub enum CodecError {
    /// The JSON library reported an error on writing a text as a string
    /// literal. It reports none on a string, so `encode_response` never
    /// returns this.
    Unwritable,
    /// The line is not a response.
    Malformed,
}

/// The text that a JSON string literal stands for, if it is one.
pub uninterp spec fn unquoted(literal: Seq<char>) -> Option<Seq<char>>;

/// What the JSON library read: the text, or nothing if it reported an error.
pub open spec fn read_text(r: Result<String, serde_json::Error>) -> Option<Seq<char>> {
    match r {
        Ok(s) => Some(s@),
        Err(_) => None,
    }
}

/// Calls `serde_json::to_string` on a string: the result is the string as
/// a JSON string literal, between quotes and with the quote, the backslash
/// and the control characters escaped. It is never an error: the outside
/// function fails only where the value's own serialisation fails or the
/// writer does, and here the value is a string and the writer a vector of
/// bytes. The literal is one that `serde_json::from_str` reads back as the
/// string.
#[verifier::external_body]
fn json_quote(s: &str) -> (r: Result<String, serde_json::Error>)
    ensures
        read_text(r) == Some(quoted(s@)),
        read_text(r) matches Some(literal) ==> unquoted(literal) == Some(s@),
{
    serde_json::to_string(s)
}

/// Calls `serde_json::from_str` for a `String`: the result is the text that
/// the literal stands for, or an error if `literal` is no string literal.
/// A literal that `serde_json::to_string` wrote for a string is read back
/// as that string.
#[verifier::external_body]
fn json_unquote(literal: &str) -> (r: Result<String, serde_json::Error>)
    ensures
        read_text(r) == unquoted(literal@),
        (forall|s: Seq<char>| literal@ == #[trigger] quoted(s) ==> read_text(r) == Some(s)),
{
    serde_json::from_str::<String>(literal)
}

/// What stands before the group name of a message.
pub open spec fn message_head() -> Seq<char> {
    "{\"Message\":{\"group_name\":"@
}

/// What stands between the group name and the text of a message.
pub open spec fn message_mid() -> Seq<char> {
    ",\"message\":"@
}

/// What stands after the text of a message.
pub open spec fn message_tail() -> Seq<char> {
    "}}"@
}

/// What stands before the text of an error.
pub open spec fn error_head() -> Seq<char> {
    "{\"Error\":"@
}

/// What stands after the text of an error.
pub open spec fn error_tail() -> Seq<char> {
    "}"@
}

/// The line that a response is written as.
pub open spec fn response_text(response: ResponseView) -> Seq<char> {
    match response {
        ResponseView::Message { group_name, message } => message_head() + quoted(group_name)
            + message_mid() + quoted(message) + message_tail(),
        ResponseView::Error(text) => error_head() + quoted(text) + error_tail(),
    }
}

/// `piece` stands in `s` at index `at`.
pub open spec fn has_at(s: Seq<char>, at: int, piece: Seq<char>) -> bool {
    0 <= at && at + piece.len() <= s.len() && s.subrange(at, at + piece.len()) == piece
}

/// The string literals of a response line, still as they stand in the line.
pub enum Pieces {
    Message { group_name: Seq<char>, message: Seq<char> },
    Error { text: Seq<char> },
}

/// The literals of a line that has the frame of a message, if it has.
pub open spec fn split_message(s: Seq<char>) -> Option<Pieces> {
    let a = message_head().len() as int;
    match literal_end(s, a) {
        Some(b) => if has_at(s, b, message_mid()) {
            let c = b + message_mid().len();
            match literal_end(s, c) {
                Some(d) => if has_at(s, d, message_tail()) && d + message_tail().len()
                    == s.len() {
                    Some(
                        Pieces::Message {
                            group_name: s.subrange(a, b),
                            message: s.subrange(c, d),
                        },
                    )
                } else {
                    None
                },
                None => None,
            }
        } else {
            None
        },
        None => None,
    }
}

/// The literal of a line that has the frame of an error, if it has.
pub open spec fn split_error(s: Seq<char>) -> Option<Pieces> {
    let a = error_head().len() as int;
    if has_at(s, 0, error_head()) {
        match literal_end(s, a) {
            Some(b) => if has_at(s, b, error_tail()) && b + error_tail().len() == s.len() {
                Some(Pieces::Error { text: s.subrange(a, b) })
            } else {
                None
            },
            None => None,
        }
    } else {
        None
    }
}

/// The literals of a response line, if the line has the frame of one.
pub open spec fn split_text(s: Seq<char>) -> Option<Pieces> {
    if has_at(s, 0, message_head()) {
        split_message(s)
    } else {
        split_error(s)
    }
}

/// The response that the literals of a line stand for, given what each
/// literal stands for.
pub open spec fn assemble(pieces: Pieces, read: spec_fn(Seq<char>) -> Option<Seq<char>>) -> Option<
    ResponseView,
> {
    match pieces {
        Pieces::Message { group_name, message } => match (read(group_name), read(message)) {
            (Some(g), Some(m)) => Some(ResponseView::Message { group_name: g, message: m }),
            _ => None,
        },
        Pieces::Error { text } => match read(text) {
            Some(t) => Some(ResponseView::Error(t)),
            None => None,
        },
    }
}

/// The response that a line stands for, if it stands for one.
pub open spec fn decode_text(s: Seq<char>) -> Option<ResponseView> {
    match split_text(s) {
        Some(pieces) => assemble(pieces, |literal: Seq<char>| unquoted(literal)),
        None => None,
    }
}

/// The literals of a response, as they are written.
pub open spec fn pieces_of(response: ResponseView) -> Pieces {
    match response {
        ResponseView::Message { group_name, message } => Pieces::Message {
            group_name: quoted(group_name),
            message: quoted(message),
        },
        ResponseView::Error(text) => Pieces::Error { text: quoted(text) },
    }
}

/// The line of a response splits into the literals that were written.
pub proof fn lemma_split_of_encoding(response: ResponseView)
    ensures
        split_text(response_text(response)) == Some(pieces_of(response)),
{
    reveal_strlit("{\"Message\":{\"group_name\":");
    reveal_strlit(",\"message\":");
    reveal_strlit("}}");
    reveal_strlit("{\"Error\":");
    reveal_strlit("}");
    let t = response_text(response);
    match response {
        ResponseView::Message { group_name, message } => {
            let head = message_head();
            let g = quoted(group_name);
            let mid = message_mid();
            let m = quoted(message);
            let tail = message_tail();
            let a = head.len() as int;
            let b = a + g.len();
            let c = b + mid.len();
            let d = c + m.len();
            assert(t.subrange(0, a) =~= head);
            lemma_literal_end(head, group_name, mid + m + tail);
            assert(head + g + (mid + m + tail) =~= t);
            assert(t.subrange(b, c) =~= mid);
            lemma_literal_end(head + g + mid, message, tail);
            assert((head + g + mid) + m + tail =~= t);
            assert(t.subrange(d, d + tail.len()) =~= tail);
        },
        ResponseView::Error(text) => {
            let head = error_head();
            let e = quoted(text);
            let tail = error_tail();
            let a = head.len() as int;
            let b = a + e.len();
            assert(t[2] == 'E');
            if has_at(t, 0, message_head()) {
                assert(t.subrange(0, message_head().len() as int)[2] == message_head()[2]);
            }
            assert(t.subrange(0, a) =~= head);
            lemma_literal_end(head, text, tail);
            assert(t.subrange(b, b + tail.len()) =~= tail);
        },
    }
}

/// The line of a response holds no control character: it is one line.
pub proof fn law_one_line(response: ResponseView)
    ensures
        forall|i: int|
            0 <= i < response_text(response).len() ==> (#[trigger] response_text(response)[i])
                != '\n' && response_text(response)[i] != '\r',
{
    reveal_strlit("{\"Message\":{\"group_name\":");
    reveal_strlit(",\"message\":");
    reveal_strlit("}}");
    reveal_strlit("{\"Error\":");
    reveal_strlit("}");
    let t = response_text(response);
    match response {
        ResponseView::Message { group_name, message } => {
            lemma_escaped_plain(group_name);
            lemma_escaped_plain(message);
            let head = message_head();
            let g = quoted(group_name);
            let mid = message_mid();
            let m = quoted(message);
            let tail = message_tail();
            lemma_plain_literal(head);
            lemma_plain_literal(mid);
            lemma_plain_literal(tail);
            lemma_plain_quoted(group_name);
            lemma_plain_quoted(message);
            lemma_plain_join(head, g);
            lemma_plain_join(head + g, mid);
            lemma_plain_join(head + g + mid, m);
            lemma_plain_join(head + g + mid + m, tail);
        },
        ResponseView::Error(text) => {
            let head = error_head();
            let e = quoted(text);
            let tail = error_tail();
            lemma_plain_literal(head);
            lemma_plain_literal(tail);
            lemma_plain_quoted(text);
            lemma_plain_join(head, e);
            lemma_plain_join(head + e, tail);
        },
    }
}

/// No character of `s` is a control character.
pub open spec fn plain(s: Seq<char>) -> bool {
    forall|i: int| 0 <= i < s.len() ==> (#[trigger] s[i]) as u32 >= 0x20
}

proof fn lemma_plain_literal(s: Seq<char>)
    requires
        s == message_head() || s == message_mid() || s == message_tail() || s == error_head() || s
            == error_tail(),
    ensures
        plain(s),
{
    reveal_strlit("{\"Message\":{\"group_name\":");
    reveal_strlit(",\"message\":");
    reveal_strlit("}}");
    reveal_strlit("{\"Error\":");
    reveal_strlit("}");
}

proof fn lemma_plain_quoted(s: Seq<char>)
    ensures
        plain(quoted(s)),
{
    lemma_escaped_plain(s);
    let q = quoted(s);
    assert forall|i: int| 0 <= i < q.len() implies (#[trigger] q[i]) as u32 >= 0x20 by {
        if 0 < i < q.len() - 1 {
            assert(q[i] == escaped(s)[i - 1]);
        }
    }
}

proof fn lemma_plain_join(a: Seq<char>, b: Seq<char>)
    requires
        plain(a),
        plain(b),
    ensures
        plain(a + b),
{
    assert forall|i: int| 0 <= i < (a + b).len() implies (#[trigger] (a + b)[i]) as u32 >= 0x20 by {
        if i < a.len() {
            assert((a + b)[i] == a[i]);
        } else {
            assert((a + b)[i] == b[i - a.len()]);
        }
    }
}

/// Where `piece` ends if it stands in `v` at index `at`.
fn match_at(v: &Vec<char>, at: usize, piece: &str) -> (r: Option<usize>)
    requires
        at <= v.len(),
    ensures
        match r {
            Some(end) => has_at(v@, at as int, piece@) && end == at + piece@.len(),
            None => !has_at(v@, at as int, piece@),
        },
{
    let p = chars_of(piece);
    if p.len() > v.len() - at {
        return None;
    }
    let mut i: usize = 0;
    while i < p.len()
        invariant
            i <= p.len(),
            at + p.len() <= v.len(),
            p@ == piece@,
            forall|k: int| 0 <= k < i ==> v@[at + k] == p@[k],
        decreases p.len() - i,
    {
        if v[at + i] != p[i] {
            proof {
                let part = v@.subrange(at as int, at + p.len());
                assert(part[i as int] == v@[at + i]);
            }
            return None;
        }
        i = i + 1;
    }
    proof {
        assert(v@.subrange(at as int, at + p.len()) =~= p@);
    }
    Some(at + p.len())
}

/// Where the string literals of a response line stand in it.
pub enum Split {
    Message { group_name: (usize, usize), message: (usize, usize) },
    Error { text: (usize, usize) },
}

impl Split {
    /// The literals that stand at these places in `s`.
    pub open spec fn pieces(self, s: Seq<char>) -> Pieces {
        match self {
            Split::Message { group_name, message } => Pieces::Message {
                group_name: s.subrange(group_name.0 as int, group_name.1 as int),
                message: s.subrange(message.0 as int, message.1 as int),
            },
            Split::Error { text } => Pieces::Error { text: s.subrange(text.0 as int, text.1 as int) },
        }
    }

    /// The places lie within a line of `n` characters.
    pub open spec fn within(self, n: nat) -> bool {
        match self {
            Split::Message { group_name, message } => group_name.0 <= group_name.1 <= n
                && message.0 <= message.1 <= n,
            Split::Error { text } => text.0 <= text.1 <= n,
        }
    }
}

/// Finds the string literals of a response line, if the line has the frame
/// of a response.
pub fn split(v: &Vec<char>) -> (r: Option<Split>)
    ensures
        match r {
            Some(places) => places.within(v@.len()) && split_text(v@) == Some(places.pieces(v@)),
            None => split_text(v@) is None,
        },
{
    match match_at(v, 0, "{\"Message\":{\"group_name\":") {
        Some(a) => {
            let b = match find_literal_end(v, a) {
                Some(b) => b,
                None => { return None; },
            };
            let c = match match_at(v, b, ",\"message\":") {
                Some(c) => c,
                None => { return None; },
            };
            let d = match find_literal_end(v, c) {
                Some(d) => d,
                None => { return None; },
            };
            match match_at(v, d, "}}") {
                Some(end) => if end == v.len() {
                    Some(Split::Message { group_name: (a, b), message: (c, d) })
                } else {
                    None
                },
                None => None,
            }
        },
        None => {
            let a = match match_at(v, 0, "{\"Error\":") {
                Some(a) => a,
                None => { return None; },
            };
            let b = match find_literal_end(v, a) {
                Some(b) => b,
                None => { return None; },
            };
            match match_at(v, b, "}") {
                Some(end) => if end == v.len() {
                    Some(Split::Error { text: (a, b) })
                } else {
                    None
                },
                None => None,
            }
        },
    }
}

/// The text that the JSON library read, if it read one.
fn text_of(r: Result<String, serde_json::Error>) -> (text: Option<String>)
    ensures
        match text {
            Some(s) => read_text(r) == Some(s@),
            None => read_text(r) is None,
        },
{
    match r {
        Ok(s) => Some(s),
        Err(_) => None,
    }
}

/// The message that two literals stand for, given what each was read as.
pub fn assemble_message(group_name: Option<String>, message: Option<String>) -> (r: Result<
    Response,
    CodecError,
>)
    ensures
        match (group_name, message) {
            (Some(g), Some(m)) => r matches Ok(response) && response@ == (ResponseView::Message {
                group_name: g@,
                message: m@,
            }),
            _ => r == Err::<Response, CodecError>(CodecError::Malformed),
        },
{
    match (group_name, message) {
        (Some(g), Some(m)) => Ok(
            Response::Message { group_name: Arc::new(g), message: Arc::new(m) },
        ),
        _ => Err(CodecError::Malformed),
    }
}

/// The error that a literal stands for, given what it was read as.
pub fn assemble_error(text: Option<String>) -> (r: Result<Response, CodecError>)
    ensures
        match text {
            Some(t) => r matches Ok(response) && response@ == ResponseView::Error(t@),
            None => r == Err::<Response, CodecError>(CodecError::Malformed),
        },
{
    match text {
        Some(t) => Ok(Response::Error(t)),
        None => Err(CodecError::Malformed),
    }
}

/// The line of a message whose group name and text are written as the two
/// literals.
pub fn message_line(group_name: &str, message: &str) -> (line: String)
    ensures
        line@ == message_head() + group_name@ + message_mid() + message@ + message_tail(),
{
    let mut line = "{\"Message\":{\"group_name\":".to_owned();
    line.append(group_name);
    line.append(",\"message\":");
    line.append(message);
    line.append("}}");
    line
}

/// The line of an error whose text is written as the literal.
pub fn error_line(text: &str) -> (line: String)
    ensures
        line@ == error_head() + text@ + error_tail(),
{
    let mut line = "{\"Error\":".to_owned();
    line.append(text);
    line.append("}");
    line
}

/// Writes a response as one line, without a line terminator. Every
/// response has its line: the result is never an error. The line is one
/// that is read back as the response, so that writing what was read gives
/// the same line again.
pub fn encode_response(response: &Response) -> (r: Result<String, CodecError>)
    ensures
        (r matches Ok(line) && line@ == response_text(response@)),
        r matches Ok(line) ==> decode_text(line@) == Some(response@),
{
    proof {
        lemma_split_of_encoding(response@);
    }
    match response {
        Response::Message { group_name, message } => {
            match (json_quote((**group_name).as_str()), json_quote((**message).as_str())) {
                (Ok(g), Ok(m)) => Ok(message_line(g.as_str(), m.as_str())),
                _ => Err(CodecError::Unwritable),
            }
        },
        Response::Error(text) => match json_quote(text.as_str()) {
            Ok(t) => Ok(error_line(t.as_str())),
            Err(_) => Err(CodecError::Unwritable),
        },
    }
}

/// Reads a response from one line. Every line that `encode_response`
/// writes for a response is read back as that response.
pub fn decode_response(line: &str) -> (r: Result<Response, CodecError>)
    ensures
        match r {
            Ok(response) => decode_text(line@) == Some(response@),
            Err(e) => e == CodecError::Malformed && decode_text(line@) is None,
        },
        forall|v: ResponseView|
            line@ == #[trigger] response_text(v) ==> (r matches Ok(response) && response@ == v),
{
    let v = chars_of(line);
    match split(&v) {
        Some(Split::Message { group_name, message }) => {
            let g = json_unquote(line.substring_char(group_name.0, group_name.1));
            let m = json_unquote(line.substring_char(message.0, message.1));
            let r = assemble_message(text_of(g), text_of(m));
            proof {
                assert forall|v: ResponseView| line@ == #[trigger] response_text(v) implies (
                r matches Ok(response) && response@ == v) by {
                    lemma_split_of_encoding(v);
                }
            }
            r
        },
        Some(Split::Error { text }) => {
            let t = json_unquote(line.substring_char(text.0, text.1));
            let r = assemble_error(text_of(t));
            proof {
                assert forall|v: ResponseView| line@ == #[trigger] response_text(v) implies (
                r matches Ok(response) && response@ == v) by {
                    lemma_split_of_encoding(v);
                }
            }
            r
        },
        None => {
            proof {
                assert forall|v: ResponseView| line@ == #[trigger] response_text(v) implies false by {
                    lemma_split_of_encoding(v);
                }
            }
            Err(CodecError::Malformed)
        },
    }
}

} // verus!
