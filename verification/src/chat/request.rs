//! Requests, and the grammar of a request line.
//!
//! A line is either a command, `/join <group>`, or a post,
//! `<group>: <message>`.
use crate::chat::text::{
    chars_of, find_char, is_space, lemma_position_first, lemma_position_none,
    lemma_trimmed_ends, position, strip_terminator, strip_terminator_at, trim, trim_at, trim_end,
    trim_end_at, trim_start,
};
use std::sync::Arc;
use vstd::prelude::*;

verus! {

/// What a client asks of the server.
#[derive(Clone, Debug, Eq, PartialEq)]
pub enum Request {
    /// Subscribe the sender to a group.
    Join { group_name: Arc<String> },
    /// Publish `message` to a group.
    Post { group_name: Arc<String>, message: Arc<String> },
}

/// A request as plain text.
pub enum RequestView {
    Join { group_name: Seq<char> },
    Post { group_name: Seq<char>, message: Seq<char> },
}

impl View for Request {
    type V = RequestView;

    open spec fn view(&self) -> RequestView {
        match self {
            Request::Join { group_name } => RequestView::Join { group_name: group_name@ },
            Request::Post { group_name, message } => RequestView::Post {
                group_name: group_name@,
                message: message@,
            },
        }
    }
}

/// Why a line is no request.
#[derive(Clone, Debug, Eq, PartialEq)]
pub enum ParseError {
    /// The line is a command, but not one the server knows.
    UnsupportedCommand { command: String },
    /// The line has neither the shape of a command nor that of a post.
    InvalidRequest { line: String },
}

/// A parse error as plain text.
pub enum ParseErrorView {
    UnsupportedCommand { command: Seq<char> },
    InvalidRequest { line: Seq<char> },
}

impl View for ParseError {
    type V = ParseErrorView;

    open spec fn view(&self) -> ParseErrorView {
        match self {
            ParseError::UnsupportedCommand { command } => ParseErrorView::UnsupportedCommand {
                command: command@,
            },
            ParseError::InvalidRequest { line } => ParseErrorView::InvalidRequest { line: line@ },
        }
    }
}

/// The lower-case form of a string, as `str::to_lowercase` computes it.
pub uninterp spec fn lowercased(s: Seq<char>) -> Seq<char>;

/// The one command: `/join`.
pub open spec fn join_command() -> Seq<char> {
    seq!['/', 'j', 'o', 'i', 'n']
}

/// What a command line means, given the lower-case form of its command
/// token: the token must read `/join` once trailing white space is cut off,
/// and a group name must follow.
pub open spec fn parse_command(
    lowered: Seq<char>,
    command: Seq<char>,
    group_name: Seq<char>,
    line: Seq<char>,
) -> Result<RequestView, ParseErrorView> {
    if trim_end(lowered) != join_command() {
        Err(ParseErrorView::UnsupportedCommand { command })
    } else if group_name.len() == 0 {
        Err(ParseErrorView::InvalidRequest { line })
    } else {
        Ok(RequestView::Join { group_name })
    }
}

/// What a request line means.
///
/// The line terminator is cut off first. A line that starts with `/` is a
/// command: it is split at its first space into the command token and the
/// group name. Any other line is a post: it is split at its first `:` into
/// the group name and the message. Names and messages are trimmed.
pub open spec fn parse_request(line: Seq<char>) -> Result<RequestView, ParseErrorView> {
    let req = strip_terminator(line);
    if req.len() > 0 && req[0] == '/' {
        match position(req, ' ') {
            Some(i) => {
                let command = req.subrange(0, i);
                let group_name = trim(req.subrange(i + 1, req.len() as int));
                parse_command(lowercased(command), command, group_name, req)
            },
            None => Err(ParseErrorView::InvalidRequest { line: req }),
        }
    } else {
        match position(req, ':') {
            Some(i) => Ok(
                RequestView::Post {
                    group_name: trim(req.subrange(0, i)),
                    message: trim(req.subrange(i + 1, req.len() as int)),
                },
            ),
            None => Err(ParseErrorView::InvalidRequest { line: req }),
        }
    }
}

/// The outcome of parsing, as plain text.
pub open spec fn outcome_view(r: Result<Request, ParseError>) -> Result<
    RequestView,
    ParseErrorView,
> {
    match r {
        Ok(request) => Ok(request@),
        Err(e) => Err(e@),
    }
}

/// Cutting the line terminator off before trimming changes nothing: the
/// terminator is white space.
pub proof fn lemma_trim_ignores_terminator(s: Seq<char>)
    ensures
        trim(strip_terminator(s)) == trim(s),
{
    if s.len() > 0 && s.last() == '\n' {
        let t = s.drop_last();
        assert(is_space('\n'));
        assert(trim_end(s) == trim_end(t));
        if t.len() > 0 && t.last() == '\r' {
            assert(is_space('\r'));
            assert(trim_end(t) == trim_end(t.drop_last()));
        }
    }
}

/// The terminator of a line that ends in `tail` is that of `tail`, where
/// `head` ends in a character that is neither a line feed nor a carriage
/// return.
pub proof fn lemma_strip_terminator_of_tail(head: Seq<char>, tail: Seq<char>)
    requires
        head.len() > 0,
        head.last() != '\n',
        head.last() != '\r',
    ensures
        strip_terminator(head + tail) == head + strip_terminator(tail),
{
    let s = head + tail;
    if tail.len() == 0 {
        assert(s =~= head);
        assert(head + strip_terminator(tail) =~= head);
    } else {
        assert(s.last() == tail.last());
        if tail.last() == '\n' {
            let t = tail.drop_last();
            assert(s.drop_last() =~= head + t);
            if t.len() > 0 {
                assert((head + t).last() == t.last());
                if t.last() == '\r' {
                    assert((head + t).drop_last() =~= head + t.drop_last());
                }
            } else {
                assert(head + t =~= head);
            }
        }
    }
}

/// Every line `<group>:<message>` whose group neither starts with `/` nor
/// holds a `:` is a post of the trimmed message to the trimmed group.
pub proof fn law_post_line(group: Seq<char>, message: Seq<char>)
    requires
        group.len() > 0 ==> group[0] != '/',
        forall|j: int| 0 <= j < group.len() ==> group[j] != ':',
    ensures
        parse_request(group + seq![':'] + message) == Ok::<RequestView, ParseErrorView>(
            RequestView::Post { group_name: trim(group), message: trim(message) },
        ),
{
    let head = group + seq![':'];
    let line = head + message;
    let tail = strip_terminator(message);
    lemma_strip_terminator_of_tail(head, message);
    let req = head + tail;
    assert(req[0] == if group.len() > 0 {
        group[0]
    } else {
        ':'
    });
    assert(req[group.len() as int] == ':');
    assert forall|j: int| 0 <= j < group.len() implies req[j] != ':' by {
        assert(req[j] == group[j]);
    }
    lemma_position_first(req, ':', group.len() as int);
    assert(req.subrange(0, group.len() as int) =~= group);
    assert(req.subrange(group.len() as int + 1, req.len() as int) =~= tail);
    lemma_trim_ignores_terminator(message);
}

/// Every line `<command> <name>` whose command token starts with `/`, holds
/// no space and reads `/join` in lower case, and whose name is not blank,
/// is a join of the trimmed name.
pub proof fn law_join_line(command: Seq<char>, name: Seq<char>)
    requires
        command.len() > 0,
        command[0] == '/',
        forall|j: int| 0 <= j < command.len() ==> command[j] != ' ',
    ensures
        trim_end(lowercased(command)) == join_command() && trim(name).len() > 0
            ==> parse_request(command + seq![' '] + name) == Ok::<RequestView, ParseErrorView>(
            RequestView::Join { group_name: trim(name) },
        ),
        trim_end(lowercased(command)) != join_command() ==> parse_request(
            command + seq![' '] + name,
        ) == Err::<RequestView, ParseErrorView>(
            ParseErrorView::UnsupportedCommand { command },
        ),
{
    let head = command + seq![' '];
    let tail = strip_terminator(name);
    lemma_strip_terminator_of_tail(head, name);
    let req = head + tail;
    assert(req[0] == command[0]);
    assert(req[command.len() as int] == ' ');
    assert forall|j: int| 0 <= j < command.len() implies req[j] != ' ' by {
        assert(req[j] == command[j]);
    }
    lemma_position_first(req, ' ', command.len() as int);
    assert(req.subrange(0, command.len() as int) =~= command);
    assert(req.subrange(command.len() as int + 1, req.len() as int) =~= tail);
    lemma_trim_ignores_terminator(name);
}

/// A line that neither starts with `/` nor holds a `:` is an invalid
/// request.
pub proof fn law_no_separator(line: Seq<char>)
    requires
        line.len() > 0 ==> line[0] != '/',
        forall|j: int| 0 <= j < line.len() ==> line[j] != ':',
    ensures
        parse_request(line) == Err::<RequestView, ParseErrorView>(
            ParseErrorView::InvalidRequest { line: strip_terminator(line) },
        ),
{
    let req = strip_terminator(line);
    assert forall|j: int| 0 <= j < req.len() implies req[j] == line[j] by {}
    lemma_position_none(req, ':');
}

/// The line that a request is written as: `/join <group>` for a join and
/// `<group>: <message>` for a post.
pub open spec fn request_text(request: RequestView) -> Seq<char> {
    match request {
        RequestView::Join { group_name } => "/join "@ + group_name,
        RequestView::Post { group_name, message } => group_name + ": "@ + message,
    }
}

/// A request whose parts hold neither a line feed nor a carriage return is
/// written as a text that holds neither: it is one line.
pub proof fn law_request_one_line(request: RequestView)
    requires
        match request {
            RequestView::Join { group_name } => forall|i: int|
                0 <= i < group_name.len() ==> group_name[i] != '\n' && group_name[i] != '\r',
            RequestView::Post { group_name, message } => (forall|i: int|
                0 <= i < group_name.len() ==> group_name[i] != '\n' && group_name[i] != '\r')
                && (forall|i: int|
                0 <= i < message.len() ==> message[i] != '\n' && message[i] != '\r'),
        },
    ensures
        forall|i: int|
            0 <= i < request_text(request).len() ==> (#[trigger] request_text(request)[i]) != '\n'
                && request_text(request)[i] != '\r',
{
    reveal_strlit("/join ");
    reveal_strlit(": ");
    let text = request_text(request);
    match request {
        RequestView::Join { group_name } => {
            let head = "/join "@;
            assert forall|i: int| 0 <= i < text.len() implies (#[trigger] text[i]) != '\n'
                && text[i] != '\r' by {
                if i >= head.len() {
                    assert(text[i] == group_name[i - head.len()]);
                } else {
                    assert(text[i] == head[i]);
                }
            }
        },
        RequestView::Post { group_name, message } => {
            let mid = ": "@;
            assert forall|i: int| 0 <= i < text.len() implies (#[trigger] text[i]) != '\n'
                && text[i] != '\r' by {
                if i < group_name.len() {
                    assert(text[i] == group_name[i]);
                } else if i < group_name.len() + mid.len() {
                    assert(text[i] == mid[i - group_name.len()]);
                } else {
                    assert(text[i] == message[i - group_name.len() - mid.len()]);
                }
            }
        },
    }
}

/// A post that is written as a line is read back as it was, where its parts
/// are trimmed, and its group neither starts with `/` nor holds a `:`.
pub proof fn law_post_round_trip(group_name: Seq<char>, message: Seq<char>)
    requires
        group_name.len() > 0 ==> group_name[0] != '/',
        forall|j: int| 0 <= j < group_name.len() ==> group_name[j] != ':',
        trim(group_name) == group_name,
        trim(message) == message,
    ensures
        parse_request(request_text(RequestView::Post { group_name, message })) == Ok::<
            RequestView,
            ParseErrorView,
        >(RequestView::Post { group_name, message }),
{
    reveal_strlit(": ");
    let spaced = seq![' '] + message;
    law_post_line(group_name, spaced);
    assert(": "@ =~= seq![':'] + seq![' ']);
    assert(group_name + ": "@ + message =~= group_name + seq![':'] + spaced);
    assert(is_space(' '));
    if message.len() == 0 {
        assert(spaced.drop_last() =~= Seq::<char>::empty());
        assert(trim_end(spaced) == trim_end(spaced.drop_last()));
        assert(trim(spaced) =~= message);
    } else {
        lemma_trimmed_ends(message);
        assert(spaced.last() == message.last());
        assert(trim_end(spaced) == spaced);
        assert(spaced.drop_first() =~= message);
        assert(trim_start(spaced) == trim_start(message));
        assert(trim_start(message) == message);
    }
}

/// Calls `str::to_lowercase`: the result is the lower-case form of `s`.
#[verifier::external_body]
fn lowercase(s: &str) -> (r: String)
    ensures
        r@ == lowercased(s@),
{
    s.to_lowercase()
}

impl Request {
    /// Parses one request line.
    pub fn try_from(line: &str) -> (r: Result<Request, ParseError>)
        ensures
            outcome_view(r) == parse_request(line@),
    {
        let v = chars_of(line);
        let end = strip_terminator_at(&v);
        let ghost req = strip_terminator(line@);
        let whole = line.substring_char(0, end);
        if end > 0 && v[0] == '/' {
            match find_char(&v, 0, end, ' ') {
                Some(sp) => {
                    let command = line.substring_char(0, sp);
                    let (b, e) = trim_at(&v, sp + 1, end);
                    let group_name = line.substring_char(b, e);
                    proof {
                        assert(req.subrange(0, sp as int) =~= v@.subrange(0, sp as int));
                        assert(req.subrange(sp + 1, req.len() as int) =~= v@.subrange(
                            sp + 1,
                            end as int,
                        ));
                    }
                    let lowered = lowercase(command);
                    Request::from_command(lowered.as_str(), command, group_name, whole)
                },
                None => Err(ParseError::InvalidRequest { line: whole.to_owned() }),
            }
        } else {
            match find_char(&v, 0, end, ':') {
                Some(colon) => {
                    let (gb, ge) = trim_at(&v, 0, colon);
                    let (mb, me) = trim_at(&v, colon + 1, end);
                    proof {
                        assert(req.subrange(0, colon as int) =~= v@.subrange(0, colon as int));
                        assert(req.subrange(colon + 1, req.len() as int) =~= v@.subrange(
                            colon + 1,
                            end as int,
                        ));
                    }
                    Ok(
                        Request::Post {
                            group_name: Arc::new(line.substring_char(gb, ge).to_owned()),
                            message: Arc::new(line.substring_char(mb, me).to_owned()),
                        },
                    )
                },
                None => Err(ParseError::InvalidRequest { line: whole.to_owned() }),
            }
        }
    }

    /// Writes the request as a line, without a line terminator.
    pub fn to_line(&self) -> (line: String)
        ensures
            line@ == request_text(self@),
    {
        match self {
            Request::Join { group_name } => {
                let mut line = "/join ".to_owned();
                line.append((**group_name).as_str());
                line
            },
            Request::Post { group_name, message } => {
                let mut line = (**group_name).clone();
                line.append(": ");
                line.append((**message).as_str());
                line
            },
        }
    }

    /// Decides a command line from its parts: the command token, its
    /// lower-case form, the trimmed group name, and the whole line for the
    /// error.
    pub fn from_command(lowered: &str, command: &str, group_name: &str, line: &str) -> (r: Result<
        Request,
        ParseError,
    >)
        ensures
            outcome_view(r) == parse_command(lowered@, command@, group_name@, line@),
    {
        let low = chars_of(lowered);
        let e = trim_end_at(&low, 0, low.len());
        proof {
            assert(low@.subrange(0, low.len() as int) =~= low@);
        }
        let is_join = e == 5 && low[0] == '/' && low[1] == 'j' && low[2] == 'o' && low[3] == 'i'
            && low[4] == 'n';
        proof {
            let t = low@.subrange(0, e as int);
            let j = join_command();
            assert(j.len() == 5 && j[0] == '/' && j[1] == 'j' && j[2] == 'o' && j[3] == 'i' && j[4]
                == 'n');
            if is_join {
                assert(t =~= join_command());
            } else if e == 5 {
                assert(t[0] == low@[0] && t[1] == low@[1] && t[2] == low@[2] && t[3] == low@[3]
                    && t[4] == low@[4]);
            }
        }
        if !is_join {
            Err(ParseError::UnsupportedCommand { command: command.to_owned() })
        } else if group_name.unicode_len() == 0 {
            Err(ParseError::InvalidRequest { line: line.to_owned() })
        } else {
            Ok(Request::Join { group_name: Arc::new(group_name.to_owned()) })
        }
    }
}

} // verus!
