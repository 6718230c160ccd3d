use async_chat::chat::codec::{
    assemble_error, assemble_message, decode_response, encode_response, error_line, message_line,
    split, CodecError, Split,
};
use async_chat::chat::json::find_literal_end;
use async_chat::chat::response::Response;
use std::sync::Arc;

fn message(group: &str, text: &str) -> Response {
    Response::Message {
        group_name: Arc::new(group.to_string()),
        message: Arc::new(text.to_string()),
    }
}

#[test]
fn encode_message_line() {
    assert_eq!(
        encode_response(&message("g", "hello")),
        Ok("{\"Message\":{\"group_name\":\"g\",\"message\":\"hello\"}}".to_string())
    );
}

#[test]
fn encode_error_line() {
    assert_eq!(
        encode_response(&Response::Error("wrong group: g".to_string())),
        Ok("{\"Error\":\"wrong group: g\"}".to_string())
    );
}

#[test]
fn encode_escapes_quotes_backslashes_and_controls() {
    assert_eq!(
        encode_response(&Response::Error("a\"b\\c\nd\re\tf\u{8}g\u{c}h\u{1}i\u{1f}j\u{7f}é".to_string())),
        Ok("{\"Error\":\"a\\\"b\\\\c\\nd\\re\\tf\\bg\\fh\\u0001i\\u001fj\u{7f}é\"}".to_string())
    );
}

#[test]
fn every_response_has_its_line() {
    for text in ["", "\u{0}", "\n\r\t", "\"\\", "\u{10ffff}", "\u{7f}\u{80}"] {
        assert!(encode_response(&Response::Error(text.to_string())).is_ok());
        assert!(encode_response(&message(text, text)).is_ok());
    }
}

#[test]
fn encoded_line_has_no_line_terminator() {
    let line = encode_response(&message("a\nb", "c\r\nd")).unwrap();
    assert!(!line.contains('\n'));
    assert!(!line.contains('\r'));
}

#[test]
fn decode_message_line() {
    assert_eq!(
        decode_response("{\"Message\":{\"group_name\":\"g\",\"message\":\"hello\"}}"),
        Ok(message("g", "hello"))
    );
}

#[test]
fn decode_error_line() {
    assert_eq!(
        decode_response("{\"Error\":\"wrong group: g\"}"),
        Ok(Response::Error("wrong group: g".to_string()))
    );
}

#[test]
fn decode_reads_escapes_that_encode_never_writes() {
    assert_eq!(
        decode_response("{\"Error\":\"\\u00e9\\/\\ud83d\\ude00\"}"),
        Ok(Response::Error("é/😀".to_string()))
    );
}

#[test]
fn decode_rejects_other_lines() {
    for line in [
        "",
        "{}",
        "{\"Error\":\"x\"} ",
        "{\"Error\":\"x\"",
        "{\"Error\":x}",
        "{\"Error\":\"\\q\"}",
        "{\"Error\":\"a\nb\"}",
        "{\"Message\":{\"group_name\":\"g\"}}",
        "{\"Message\":{\"group_name\":\"g\",\"message\":\"m\"}",
        "{\"Message\":{\"message\":\"m\",\"group_name\":\"g\"}}",
        "{\"Other\":\"x\"}",
        "g: hello",
    ] {
        assert_eq!(decode_response(line), Err(CodecError::Malformed), "{line:?}");
    }
}

#[test]
fn response_round_trip() {
    let responses = [
        message("g", "hello"),
        message("", ""),
        message("a\"b", "\\"),
        message("\\\"", "\"}}"),
        message("line\nbreak", "tab\tand\u{0}nul"),
        message("日本語", "😀 \u{7f} \u{80}"),
        Response::Error(String::new()),
        Response::Error("\",\"message\":\"".to_string()),
        Response::Error("wrong group: \"g\"".to_string()),
    ];
    for response in responses {
        let line = encode_response(&response).unwrap();
        let back = decode_response(&line).unwrap();
        assert_eq!(back, response);
        assert_eq!(encode_response(&back).unwrap(), line);
    }
}

#[test]
fn split_finds_the_literals() {
    let line: Vec<char> = "{\"Error\":\"a\\\"b\"}".chars().collect();
    match split(&line) {
        Some(Split::Error { text }) => assert_eq!(text, (9, 15)),
        _ => panic!("no error frame"),
    }
    let line: Vec<char> = "{\"Message\":{\"group_name\":\"g\",\"message\":\"\"}}"
        .chars()
        .collect();
    match split(&line) {
        Some(Split::Message {
            group_name,
            message,
        }) => {
            assert_eq!(group_name, (25, 28));
            assert_eq!(message, (39, 41));
        }
        _ => panic!("no message frame"),
    }
    let line: Vec<char> = "{\"Error\":\"a\"}}".chars().collect();
    assert!(split(&line).is_none());
}

#[test]
fn literal_end_skips_escaped_quotes() {
    let text: Vec<char> = "x\"a\\\"b\\\\\"y".chars().collect();
    assert_eq!(find_literal_end(&text, 1), Some(9));
    assert_eq!(find_literal_end(&text, 0), None);
    assert_eq!(find_literal_end(&text, 8), None);
    let open: Vec<char> = "\"abc\\".chars().collect();
    assert_eq!(find_literal_end(&open, 0), None);
    assert_eq!(find_literal_end(&open, 7), None);
}

#[test]
fn assemble_needs_every_literal() {
    assert_eq!(
        assemble_message(Some("g".to_string()), Some("m".to_string())),
        Ok(message("g", "m"))
    );
    assert_eq!(
        assemble_message(None, Some("m".to_string())),
        Err(CodecError::Malformed)
    );
    assert_eq!(
        assemble_message(Some("g".to_string()), None),
        Err(CodecError::Malformed)
    );
    assert_eq!(
        assemble_error(Some("e".to_string())),
        Ok(Response::Error("e".to_string()))
    );
    assert_eq!(assemble_error(None), Err(CodecError::Malformed));
}

#[test]
fn lines_frame_the_literals() {
    assert_eq!(
        message_line("\"g\"", "\"m\""),
        "{\"Message\":{\"group_name\":\"g\",\"message\":\"m\"}}"
    );
    assert_eq!(message_line("", ""), "{\"Message\":{\"group_name\":,\"message\":}}");
    assert_eq!(error_line("\"e\""), "{\"Error\":\"e\"}");
}
