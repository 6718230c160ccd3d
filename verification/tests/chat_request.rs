use async_chat::chat::request::{ParseError, Request};
use std::sync::Arc;

fn join(name: &str) -> Request {
    Request::Join {
        group_name: Arc::new(name.to_string()),
    }
}

fn post(group: &str, message: &str) -> Request {
    Request::Post {
        group_name: Arc::new(group.to_string()),
        message: Arc::new(message.to_string()),
    }
}

#[test]
fn request_join_try_from_ok() {
    let requests = ["/join world", "/join   world"];
    let want = Request::Join {
        group_name: Arc::new("world".to_string()),
    };
    for request in requests {
        assert_eq!(Request::try_from(request).unwrap(), want);
    }
}

#[test]
fn request_post_try_from_ok() {
    let requests = ["world: hello", "world:   hello", "  world:   hello   "];
    let want = Request::Post {
        group_name: Arc::new("world".to_string()),
        message: Arc::new("hello".to_string()),
    };
    for request in requests {
        assert_eq!(Request::try_from(request).unwrap(), want);
    }
}

#[test]
fn request_without_separator_is_invalid() {
    for line in ["hello world", "hello world\n", "", "\r\n", "join world"] {
        let stripped = line.trim_end_matches('\n').trim_end_matches('\r');
        assert_eq!(
            Request::try_from(line),
            Err(ParseError::InvalidRequest {
                line: stripped.to_string()
            })
        );
    }
}

#[test]
fn request_join_is_case_insensitive_and_trims_the_name() {
    assert_eq!(Request::try_from("/JOIN world"), Ok(join("world")));
    assert_eq!(Request::try_from("/Join \t world  \r\n"), Ok(join("world")));
    assert_eq!(Request::try_from("/join\t world"), Ok(join("world")));
    assert_eq!(Request::try_from("/join a b"), Ok(join("a b")));
}

#[test]
fn request_unsupported_command() {
    assert_eq!(
        Request::try_from("/leave world"),
        Err(ParseError::UnsupportedCommand {
            command: "/leave".to_string()
        })
    );
    assert_eq!(
        Request::try_from("/leave \n"),
        Err(ParseError::UnsupportedCommand {
            command: "/leave".to_string()
        })
    );
    assert_eq!(
        Request::try_from("/joining world"),
        Err(ParseError::UnsupportedCommand {
            command: "/joining".to_string()
        })
    );
}

#[test]
fn request_join_without_a_name_is_invalid() {
    assert_eq!(
        Request::try_from("/join"),
        Err(ParseError::InvalidRequest {
            line: "/join".to_string()
        })
    );
    assert_eq!(
        Request::try_from("/join   \n"),
        Err(ParseError::InvalidRequest {
            line: "/join   ".to_string()
        })
    );
}

#[test]
fn request_post_splits_at_the_first_colon() {
    assert_eq!(Request::try_from("g: a: b"), Ok(post("g", "a: b")));
    assert_eq!(Request::try_from(":"), Ok(post("", "")));
    assert_eq!(Request::try_from("g:\u{3000}hi\u{a0}\n"), Ok(post("g", "hi")));
    assert_eq!(Request::try_from("a b : c d "), Ok(post("a b", "c d")));
}

#[test]
fn request_command_parts() {
    assert_eq!(
        Request::from_command("/join", "/JOIN", "g", "/JOIN g"),
        Ok(join("g"))
    );
    assert_eq!(
        Request::from_command("/join \t", "/JOIN", "g", "/JOIN g"),
        Ok(join("g"))
    );
    assert_eq!(
        Request::from_command("/joi", "/JOI", "g", "/JOI g"),
        Err(ParseError::UnsupportedCommand {
            command: "/JOI".to_string()
        })
    );
    assert_eq!(
        Request::from_command("/join", "/join", "", "/join "),
        Err(ParseError::InvalidRequest {
            line: "/join ".to_string()
        })
    );
}

#[test]
fn request_line_is_one_line() {
    for request in [join("world"), post("world", "hello there"), post("", "")] {
        let line = request.to_line();
        assert!(!line.contains('\n'));
        assert!(!line.contains('\r'));
    }
}

#[test]
fn request_lines() {
    assert_eq!(join("world").to_line(), "/join world");
    assert_eq!(post("world", "hello there").to_line(), "world: hello there");
    assert_eq!(post("", "").to_line(), ": ");
}

#[test]
fn request_line_round_trip() {
    for request in [
        join("world"),
        join("a b"),
        post("world", "hello"),
        post("w", "a: b"),
        post("", ""),
        post("日本", "語 !"),
    ] {
        assert_eq!(Request::try_from(&request.to_line()), Ok(request));
    }
}
