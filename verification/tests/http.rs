use turntable::http::{
    body_of, first_line, handle_api, handle_request, parse_direction_body, parse_rotate_body,
    parse_speed_body, request_line_fits, request_text, MotorCommand, Reply,
};
use turntable::json::{extract_json_number, extract_json_string};
use turntable::response::{decimal_text, next_sent, response_head, status_text};
use turntable::stepper::Direction;

fn parse_f32(s: &str) -> Option<f32> {
    s.parse::<f32>().ok()
}

const INDEX: &str = "<html>turntable</html>";

fn reply_to(request: &str) -> Reply<'static, f32> {
    handle_request(request, INDEX, &parse_f32)
}

#[test]
fn string_field_is_read_up_to_the_closing_quote() {
    assert_eq!(extract_json_string(r#"{"direction":"cw"}"#, "direction"), Some("cw"));
    assert_eq!(extract_json_string(r#"{"a":"x","direction":"ccw"}"#, "direction"), Some("ccw"));
    assert_eq!(extract_json_string(r#"{"direction":""}"#, "direction"), Some(""));
}

#[test]
fn string_field_missing_or_unterminated() {
    assert_eq!(extract_json_string(r#"{"speed":"cw"}"#, "direction"), None);
    assert_eq!(extract_json_string(r#"{"direction": "cw"}"#, "direction"), None);
    assert_eq!(extract_json_string(r#"{"direction":"cw"#, "direction"), None);
}

#[test]
fn overlong_key_pattern_is_cut_to_what_fits() {
    // 70 bytes do not fit after the opening quote: the pattern is just `"`.
    let key = "k".repeat(70);
    assert_eq!(extract_json_string(r#"{"a":"b"}"#, &key), Some("a"));
}

#[test]
fn number_field_is_parsed_after_white_space() {
    assert_eq!(extract_json_number(r#"{"degrees": 90, "x":1}"#, "degrees", &parse_f32), Some(90.0));
    assert_eq!(extract_json_number(r#"{"rpm":-1.5}"#, "rpm", &parse_f32), Some(-1.5));
    assert_eq!(extract_json_number(r#"{"rpm":	 12.25}"#, "rpm", &parse_f32), Some(12.25));
}

#[test]
fn number_field_missing_or_unparsable() {
    assert_eq!(extract_json_number(r#"{"speed":5}"#, "rpm", &parse_f32), None);
    assert_eq!(extract_json_number(r#"{"rpm":"5"}"#, "rpm", &parse_f32), None);
    assert_eq!(extract_json_number(r#"{"rpm":1.2.3}"#, "rpm", &parse_f32), None);
    assert_eq!(extract_json_number(r#"{"rpm":-}"#, "rpm", &parse_f32), None);
}

#[test]
fn direction_body_names() {
    assert_eq!(parse_direction_body(r#"{"direction":"cw"}"#), Some(Direction::Clockwise));
    assert_eq!(parse_direction_body(r#"{"direction":"ccw"}"#), Some(Direction::CounterClockwise));
    assert_eq!(parse_direction_body(r#"{"direction":"left"}"#), None);
    assert_eq!(parse_direction_body(r#"{}"#), None);
}

#[test]
fn rotate_body_needs_degrees_and_direction() {
    assert_eq!(
        parse_rotate_body(r#"{"degrees":90,"direction":"ccw"}"#, &parse_f32),
        Some((90.0, Direction::CounterClockwise))
    );
    assert_eq!(parse_rotate_body(r#"{"degrees":90}"#, &parse_f32), None);
    assert_eq!(parse_rotate_body(r#"{"direction":"cw"}"#, &parse_f32), None);
    assert_eq!(parse_rotate_body(r#"{"degrees":x,"direction":"cw"}"#, &parse_f32), None);
}

#[test]
fn speed_body_reads_rpm() {
    assert_eq!(parse_speed_body(r#"{"rpm":3}"#, &parse_f32), Some(3.0));
    assert_eq!(parse_speed_body(r#"{"speed":3}"#, &parse_f32), None);
}

#[test]
fn first_line_drops_the_line_ending() {
    assert_eq!(first_line("GET / HTTP/1.1\r\nHost: x\r\n\r\n"), "GET / HTTP/1.1");
    assert_eq!(first_line("GET / HTTP/1.1\nHost: x"), "GET / HTTP/1.1");
    assert_eq!(first_line("no line ending\r"), "no line ending\r");
    assert_eq!(first_line(""), "");
    assert_eq!(first_line("\r\nrest"), "");
}

#[test]
fn body_is_between_the_first_two_blank_lines() {
    assert_eq!(body_of("POST /api/stop HTTP/1.1\r\nA: b\r\n\r\n{\"x\":1}"), "{\"x\":1}");
    assert_eq!(body_of("H\r\n\r\nbody\r\n\r\nmore"), "body");
    assert_eq!(body_of("no blank line"), "");
}

#[test]
fn request_line_word_limit() {
    assert!(request_line_fits("GET / HTTP/1.1\r\n"));
    assert!(request_line_fits("a b c d e f g h\r\nx y z"));
    assert!(!request_line_fits("a b c d e f g h i\r\n"));
}

#[test]
fn get_root_serves_the_index_page() {
    let reply = reply_to("GET / HTTP/1.1\r\nHost: turntable\r\n\r\n");
    assert_eq!(reply.response.status, 200);
    assert_eq!(reply.response.content_type, "text/html");
    assert_eq!(reply.response.body, INDEX);
    assert_eq!(reply.command, None);
}

#[test]
fn rotate_request_sends_rotate_command() {
    let reply = reply_to(
        "POST /api/rotate HTTP/1.1\r\nContent-Type: application/json\r\n\r\n{\"degrees\": 45.5, \"direction\":\"cw\"}",
    );
    assert_eq!(reply.response.status, 200);
    assert_eq!(reply.response.content_type, "application/json");
    assert_eq!(reply.response.body, r#"{"status":"ok"}"#);
    assert_eq!(
        reply.command,
        Some(MotorCommand::Rotate { degrees: 45.5, direction: Direction::Clockwise })
    );
}

#[test]
fn rotate_request_with_bad_params_is_refused() {
    let reply = reply_to("POST /api/rotate HTTP/1.1\r\n\r\n{\"degrees\":45,\"direction\":\"up\"}");
    assert_eq!(reply.response.status, 400);
    assert_eq!(reply.response.body, r#"{"error":"invalid params"}"#);
    assert_eq!(reply.command, None);
}

#[test]
fn speed_request() {
    let ok = reply_to("POST /api/speed HTTP/1.1\r\n\r\n{\"rpm\":2.5}");
    assert_eq!(ok.response.status, 200);
    assert_eq!(ok.command, Some(MotorCommand::SetSpeed { rpm: 2.5 }));
    let bad = reply_to("POST /api/speed HTTP/1.1\r\n\r\n{\"rpm\":\"fast\"}");
    assert_eq!(bad.response.status, 400);
    assert_eq!(bad.response.body, r#"{"error":"invalid rpm"}"#);
    assert_eq!(bad.command, None);
}

#[test]
fn continuous_request() {
    let ok = reply_to("POST /api/continuous HTTP/1.1\r\n\r\n{\"direction\":\"ccw\"}");
    assert_eq!(ok.command, Some(MotorCommand::Continuous { direction: Direction::CounterClockwise }));
    let bad = reply_to("POST /api/continuous HTTP/1.1\r\n\r\n{}");
    assert_eq!(bad.response.status, 400);
    assert_eq!(bad.response.body, r#"{"error":"invalid direction"}"#);
}

#[test]
fn stop_request() {
    let reply = reply_to("POST /api/stop HTTP/1.1\r\n\r\n");
    assert_eq!(reply.response.status, 200);
    assert_eq!(reply.command, Some(MotorCommand::Stop));
}

#[test]
fn unknown_api_path_is_not_found_as_json() {
    let reply = reply_to("POST /api/jump HTTP/1.1\r\n\r\n");
    assert_eq!(reply.response.status, 404);
    assert_eq!(reply.response.content_type, "application/json");
    assert_eq!(reply.response.body, r#"{"error":"not found"}"#);
    assert_eq!(reply.command, None);
}

#[test]
fn other_requests_are_not_found() {
    for request in ["GET /index.html HTTP/1.1\r\n\r\n", "PUT /api/stop HTTP/1.1\r\n\r\n", "POST /stop HTTP/1.1\r\n\r\n"] {
        let reply = reply_to(request);
        assert_eq!(reply.response.status, 404);
        assert_eq!(reply.response.content_type, "text/plain");
        assert_eq!(reply.response.body, "Not Found");
        assert_eq!(reply.command, None);
    }
}

#[test]
fn short_request_line_is_bad_request() {
    for request in ["", "GET\r\n\r\n", "   \r\nGET / HTTP/1.1"] {
        let reply = reply_to(request);
        assert_eq!(reply.response.status, 400);
        assert_eq!(reply.response.content_type, "text/plain");
        assert_eq!(reply.response.body, "Bad Request");
    }
}

#[test]
fn api_handler_alone() {
    let reply = handle_api("/api/rotate", "X\r\n\r\n{\"degrees\":-30,\"direction\":\"ccw\"}", &parse_f32);
    assert_eq!(
        reply.command,
        Some(MotorCommand::Rotate { degrees: -30.0, direction: Direction::CounterClockwise })
    );
}

#[test]
fn status_texts() {
    assert_eq!(status_text(200), "OK");
    assert_eq!(status_text(400), "Bad Request");
    assert_eq!(status_text(404), "Not Found");
    assert_eq!(status_text(500), "Unknown");
}

#[test]
fn decimal_notation() {
    assert_eq!(decimal_text(0), "0");
    assert_eq!(decimal_text(7), "7");
    assert_eq!(decimal_text(1234), "1234");
    assert_eq!(decimal_text(u64::MAX), u64::MAX.to_string());
}

#[test]
fn response_head_format() {
    assert_eq!(
        response_head(200, "application/json", r#"{"status":"ok"}"#),
        "HTTP/1.1 200 OK\r\nContent-Type: application/json\r\nContent-Length: 15\r\nConnection: close\r\n\r\n"
    );
    assert_eq!(
        response_head(404, "text/plain", "Not Found"),
        "HTTP/1.1 404 Not Found\r\nContent-Type: text/plain\r\nContent-Length: 9\r\nConnection: close\r\n\r\n"
    );
    assert_eq!(
        response_head(503, "text/plain", "é"),
        "HTTP/1.1 503 Unknown\r\nContent-Type: text/plain\r\nContent-Length: 2\r\nConnection: close\r\n\r\n"
    );
}

#[test]
fn response_head_stops_at_the_first_piece_that_does_not_fit() {
    let content_type = "x".repeat(300);
    assert_eq!(response_head(200, &content_type, ""), "HTTP/1.1 200 OK\r\nContent-Type: ");
}

#[test]
fn request_bytes_that_are_not_utf8_read_as_empty() {
    assert_eq!(request_text(b"GET / HTTP/1.1"), "GET / HTTP/1.1");
    assert_eq!(request_text(&[0x47, 0xff, 0x20]), "");
}

#[test]
fn request_line_splits_at_unicode_white_space() {
    let reply = reply_to("GET\u{a0}/\u{2003}HTTP/1.1\r\n\r\n");
    assert_eq!(reply.response.status, 200);
    assert_eq!(reply.response.body, INDEX);
}

#[test]
fn number_read_back_from_written_body() {
    for text in ["0", "12", "-3.5", "360"] {
        let body = format!("{{\"degrees\":{}}}", text);
        assert_eq!(
            extract_json_number(&body, "degrees", &|s: &str| Some(s.to_string())),
            Some(text.to_string())
        );
    }
}

#[test]
fn sending_goes_on_until_done_or_stalled() {
    assert_eq!(next_sent(10, 0, Some(4)), Some(4));
    assert_eq!(next_sent(10, 4, Some(6)), Some(10));
    assert_eq!(next_sent(10, 4, Some(0)), None);
    assert_eq!(next_sent(10, 4, None), None);
}
