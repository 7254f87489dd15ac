//! The turntable's HTTP API: reading a request, routing it, and turning
//! the JSON parameters of the API calls into motor commands.
//!
//! Numbers in request bodies are parsed by a function that the caller
//! hands in, so that the number type is the caller's choice.

use vstd::prelude::*;
use vstd::string::{StrSliceExecFns, StringSliceAdditionalSpecFns};

use crate::fixed::{parts_capacity, parts_held, RequestParts};
use crate::json::{
    extract_json_number,
    extract_json_string,
    json_number_text,
    json_string_field,
    lemma_string_field_read_back,
    lemma_string_member_read_anywhere,
    string_key_pattern,
};
use crate::stepper::Direction;
use crate::text::{
    chars_of,
    find,
    find_from,
    is_first_match,
    lemma_find,
    matches_at,
    lemma_words_append_space,
    lemma_words_append_word,
    lemma_words_grow,
    not_white_space,
    same_text,
    skip_white_space,
    skip_word,
    starts_with,
    white_space_char,
    words,
};

verus! {

/// The direction that a `direction` value names: `cw` or `ccw`.
pub open spec fn direction_named(value: Seq<char>) -> Option<Direction> {
    if value == seq!['c', 'w'] {
        Some(Direction::Clockwise)
    } else if value == seq!['c', 'c', 'w'] {
        Some(Direction::CounterClockwise)
    } else {
        None
    }
}

/// The key `direction`.
pub open spec fn direction_key() -> Seq<char> {
    seq!['d', 'i', 'r', 'e', 'c', 't', 'i', 'o', 'n']
}

/// The direction given by the `direction` field of a request body.
pub open spec fn direction_field(body: Seq<char>) -> Option<Direction> {
    match json_string_field(body, direction_key()) {
        Some(value) => direction_named(value),
        None => None,
    }
}

/// A body `{"direction":"cw"}` or `{"direction":"ccw"}` is read back as
/// the direction it names.
pub proof fn lemma_direction_read_back(direction: Direction)
    ensures
        direction_field(
            seq!['{'] + string_key_pattern(direction_key())
                + (if direction == Direction::Clockwise {
                seq!['c', 'w']
            } else {
                seq!['c', 'c', 'w']
            }) + seq!['"', '}'],
        ) == Some(direction),
{
    let key = direction_key();
    assert(vstd::utf8::is_ascii_chars(key));
    vstd::utf8::is_ascii_chars_encode_utf8(key);
    let name = if direction == Direction::Clockwise {
        seq!['c', 'w']
    } else {
        seq!['c', 'c', 'w']
    };
    lemma_string_field_read_back(key, name);
}

/// The direction named by the `direction` field of a request body.
pub fn parse_direction_body(body: &str) -> (direction: Option<Direction>)
    ensures
        direction == direction_field(body@),
{
    let key = "direction";
    proof {
        reveal_strlit("direction");
        assert(key@ =~= direction_key());
    }
    match extract_json_string(body, key) {
        None => None,
        Some(value) => direction_from_name(value),
    }
}

/// The direction that `cw` or `ccw` names.
fn direction_from_name(value: &str) -> (direction: Option<Direction>)
    ensures
        direction == direction_named(value@),
{
    let cw = "cw";
    let ccw = "ccw";
    proof {
        reveal_strlit("cw");
        reveal_strlit("ccw");
        assert(cw@ =~= seq!['c', 'w']);
        assert(ccw@ =~= seq!['c', 'c', 'w']);
    }
    if same_text(value, cw) {
        Some(Direction::Clockwise)
    } else if same_text(value, ccw) {
        Some(Direction::CounterClockwise)
    } else {
        None
    }
}

/// A command for the motor task. Angles and speeds are numbers of the type
/// that the request handler's number parser yields.
#[derive(Debug, Clone, Copy, PartialEq)]
pub enum MotorCommand<N> {
    Rotate { degrees: N, direction: Direction },
    SetSpeed { rpm: N },
    Stop,
    Continuous { direction: Direction },
}

/// The degrees and direction of a rotate request, from the parsed
/// `degrees` value and the `direction` field.
pub open spec fn rotate_params<N>(degrees: Option<N>, direction: Option<Direction>) -> Option<
    (N, Direction),
> {
    match (degrees, direction) {
        (Some(d), Some(dir)) => Some((d, dir)),
        _ => None,
    }
}

/// The angle and direction of a rotate request body: `degrees` as `parse`
/// reads it and the `direction` field.
pub fn parse_rotate_body<N, F: Fn(&str) -> Option<N>>(body: &str, parse: &F) -> (params: Option<
    (N, Direction),
>)
    requires
        forall|s: &str| call_requires(*parse, (s,)),
    ensures
        match json_number_text(body@, degrees_key()) {
            None => params is None,
            Some(t) => exists|s: &str, v: Option<N>|
                s@ == t && call_ensures(*parse, (s,), v) && params == rotate_params(
                    v,
                    direction_field(body@),
                ),
        },
{
    let key = "degrees";
    proof {
        reveal_strlit("degrees");
        assert(key@ =~= degrees_key());
    }
    let degrees = extract_json_number(body, key, parse);
    match degrees {
        None => None,
        Some(d) => match parse_direction_body(body) {
            Some(dir) => Some((d, dir)),
            None => None,
        },
    }
}

/// The speed of a speed request body: `rpm` as `parse` reads it.
pub fn parse_speed_body<N, F: Fn(&str) -> Option<N>>(body: &str, parse: &F) -> (rpm: Option<N>)
    requires
        forall|s: &str| call_requires(*parse, (s,)),
    ensures
        match json_number_text(body@, rpm_key()) {
            None => rpm is None,
            Some(t) => exists|s: &str| s@ == t && call_ensures(*parse, (s,), rpm),
        },
{
    let key = "rpm";
    proof {
        reveal_strlit("rpm");
        assert(key@ =~= rpm_key());
    }
    extract_json_number(body, key, parse)
}

/// The key `degrees`.
pub open spec fn degrees_key() -> Seq<char> {
    seq!['d', 'e', 'g', 'r', 'e', 'e', 's']
}

/// The key `rpm`.
pub open spec fn rpm_key() -> Seq<char> {
    seq!['r', 'p', 'm']
}

/// An HTTP response: status code, content type and body.
pub struct Response<'a> {
    pub status: u16,
    pub content_type: &'static str,
    pub body: &'a str,
}

/// The abstract value of a [`Response`].
pub struct ResponseSpec {
    pub status: u16,
    pub content_type: Seq<char>,
    pub body: Seq<char>,
}

impl<'a> View for Response<'a> {
    type V = ResponseSpec;

    open spec fn view(&self) -> ResponseSpec {
        ResponseSpec { status: self.status, content_type: self.content_type@, body: self.body@ }
    }
}

/// What a request is answered with: the response, and the command to hand
/// to the motor task, if any.
pub struct Reply<'a, N> {
    pub response: Response<'a>,
    pub command: Option<MotorCommand<N>>,
}

/// The abstract value of a [`Reply`].
pub struct ReplySpec<N> {
    pub response: ResponseSpec,
    pub command: Option<MotorCommand<N>>,
}

impl<'a, N> View for Reply<'a, N> {
    type V = ReplySpec<N>;

    open spec fn view(&self) -> ReplySpec<N> {
        ReplySpec { response: self.response@, command: self.command }
    }
}

/// `{"status":"ok"}` with status 200, and the command to send.
pub open spec fn accepted<N>(command: MotorCommand<N>) -> ReplySpec<N> {
    ReplySpec {
        response: ResponseSpec {
            status: 200,
            content_type: "application/json"@,
            body: "{\"status\":\"ok\"}"@,
        },
        command: Some(command),
    }
}

/// A response that sends no command.
pub open spec fn answered<N>(status: u16, content_type: Seq<char>, body: Seq<char>) -> ReplySpec<N> {
    ReplySpec { response: ResponseSpec { status, content_type, body }, command: None }
}

/// The reply to a POST to the API path `path` with request body `body`,
/// given the value of the number in the body as parsed (`None` when there
/// is no such number or it did not parse).
pub open spec fn api_reply<N>(path: Seq<char>, body: Seq<char>, number: Option<N>) -> ReplySpec<N> {
    if path == "/api/rotate"@ {
        match rotate_params(number, direction_field(body)) {
            Some((degrees, direction)) => accepted(MotorCommand::Rotate { degrees, direction }),
            None => answered(400, "application/json"@, "{\"error\":\"invalid params\"}"@),
        }
    } else if path == "/api/speed"@ {
        match number {
            Some(rpm) => accepted(MotorCommand::SetSpeed { rpm }),
            None => answered(400, "application/json"@, "{\"error\":\"invalid rpm\"}"@),
        }
    } else if path == "/api/continuous"@ {
        match direction_field(body) {
            Some(direction) => accepted(MotorCommand::Continuous { direction }),
            None => answered(400, "application/json"@, "{\"error\":\"invalid direction\"}"@),
        }
    } else if path == "/api/stop"@ {
        accepted(MotorCommand::Stop)
    } else {
        answered(404, "application/json"@, "{\"error\":\"not found\"}"@)
    }
}

/// The text of the number that the API path `path` reads from `body`:
/// `degrees` for rotate, `rpm` for speed, none for the others.
pub open spec fn api_number_text(path: Seq<char>, body: Seq<char>) -> Option<Seq<char>> {
    if path == "/api/rotate"@ {
        json_number_text(body, degrees_key())
    } else if path == "/api/speed"@ {
        json_number_text(body, rpm_key())
    } else {
        None
    }
}

/// The body of an HTTP request: the text after the first blank line
/// (`\r\n\r\n`) up to the next one; empty when there is no blank line.
pub open spec fn request_body(request: Seq<char>) -> Seq<char> {
    let blank = seq!['\r', '\n', '\r', '\n'];
    match find(request, blank) {
        None => seq![],
        Some(i) => {
            let rest = request.skip(i + 4);
            match find(rest, blank) {
                None => rest,
                Some(j) => rest.take(j),
            }
        },
    }
}

/// The body of the HTTP request `request`.
pub fn body_of(request: &str) -> (body: &str)
    ensures
        body@ == request_body(request@),
{
    let chars = chars_of(request);
    let n = chars.len();
    let blank = ['\r', '\n', '\r', '\n'];
    let ghost r = request@;
    proof {
        assert(blank@ =~= seq!['\r', '\n', '\r', '\n']);
        assert(r.skip(0) =~= r);
        lemma_find(r, blank@);
    }
    match find_from(chars.as_slice(), 0, blank.as_slice()) {
        None => {
            let empty = "";
            proof {
                reveal_strlit("");
                assert(empty@ =~= Seq::<char>::empty());
            }
            empty
        },
        Some(i) => {
            let start = i + 4;
            proof {
                lemma_find(r.skip(start as int), blank@);
            }
            match find_from(chars.as_slice(), start, blank.as_slice()) {
                None => request.substring_char(start, n),
                Some(e) => {
                    proof {
                        assert(r.skip(start as int).take(e as int) =~= r.subrange(
                            start as int,
                            start + e,
                        ));
                    }
                    request.substring_char(start, start + e)
                },
            }
        },
    }
}

/// Reply to a POST to the API path `path`: send the motor command that the
/// path and the request body ask for, and say whether it was accepted.
pub fn handle_api<N, F: Fn(&str) -> Option<N>>(path: &str, request: &str, parse: &F) -> (reply:
    Reply<'static, N>)
    requires
        forall|s: &str| call_requires(*parse, (s,)),
    ensures
        match api_number_text(path@, request_body(request@)) {
            None => reply@ == api_reply(path@, request_body(request@), None::<N>),
            Some(t) => exists|s: &str, v: Option<N>|
                s@ == t && call_ensures(*parse, (s,), v) && reply@ == api_reply(
                    path@,
                    request_body(request@),
                    v,
                ),
        },
{
    let body = body_of(request);
    let json = "application/json";
    if same_text(path, "/api/rotate") {
        match parse_rotate_body(body, parse) {
            Some((degrees, direction)) => Reply {
                response: Response { status: 200, content_type: json, body: "{\"status\":\"ok\"}" },
                command: Some(MotorCommand::Rotate { degrees, direction }),
            },
            None => Reply {
                response: Response {
                    status: 400,
                    content_type: json,
                    body: "{\"error\":\"invalid params\"}",
                },
                command: None,
            },
        }
    } else if same_text(path, "/api/speed") {
        match parse_speed_body(body, parse) {
            Some(rpm) => Reply {
                response: Response { status: 200, content_type: json, body: "{\"status\":\"ok\"}" },
                command: Some(MotorCommand::SetSpeed { rpm }),
            },
            None => Reply {
                response: Response {
                    status: 400,
                    content_type: json,
                    body: "{\"error\":\"invalid rpm\"}",
                },
                command: None,
            },
        }
    } else if same_text(path, "/api/continuous") {
        match parse_direction_body(body) {
            Some(direction) => Reply {
                response: Response { status: 200, content_type: json, body: "{\"status\":\"ok\"}" },
                command: Some(MotorCommand::Continuous { direction }),
            },
            None => Reply {
                response: Response {
                    status: 400,
                    content_type: json,
                    body: "{\"error\":\"invalid direction\"}",
                },
                command: None,
            },
        }
    } else if same_text(path, "/api/stop") {
        Reply {
            response: Response { status: 200, content_type: json, body: "{\"status\":\"ok\"}" },
            command: Some(MotorCommand::Stop),
        }
    } else {
        Reply {
            response: Response { status: 404, content_type: json, body: "{\"error\":\"not found\"}" },
            command: None,
        }
    }
}

/// The first line of `request`, without its line ending: up to the first
/// `\n`, dropping a `\r` just before it (what `str::lines` yields first).
pub open spec fn request_line(request: Seq<char>) -> Seq<char> {
    match find(request, seq!['\n']) {
        None => request,
        Some(i) => if i > 0 && request[i - 1] == '\r' {
            request.take(i - 1)
        } else {
            request.take(i)
        },
    }
}

/// The first line of the HTTP request `request`.
pub fn first_line(request: &str) -> (line: &str)
    ensures
        line@ == request_line(request@),
{
    let chars = chars_of(request);
    let n = chars.len();
    let newline = ['\n'];
    let ghost r = request@;
    proof {
        assert(newline@ =~= seq!['\n']);
        assert(r.skip(0) =~= r);
        lemma_find(r, newline@);
    }
    match find_from(chars.as_slice(), 0, newline.as_slice()) {
        None => {
            proof {
                assert(r.subrange(0, n as int) =~= r);
            }
            request.substring_char(0, n)
        },
        Some(i) => {
            proof {
                assert(is_first_match(r, seq!['\n'], i as int));
            }
            if i > 0 && chars[i - 1] == '\r' {
                proof {
                    assert(r.subrange(0, i - 1) =~= r.take(i - 1));
                }
                request.substring_char(0, i - 1)
            } else {
                proof {
                    assert(r.subrange(0, i as int) =~= r.take(i as int));
                }
                request.substring_char(0, i)
            }
        },
    }
}

/// The words of `line` collected into a [`RequestParts`], or `None` when
/// there are more words than it holds.
pub fn split_request_line<'a>(line: &'a str) -> (parts: Option<RequestParts<'a>>)
    ensures
        parts is Some <==> words(line@).len() <= parts_capacity(),
        parts matches Some(p) ==> parts_held(p) == words(line@),
{
    let chars = chars_of(line);
    let n = chars.len();
    let ghost s = line@;
    let mut parts = RequestParts::new();
    let mut i: usize = 0;
    proof {
        assert(s.take(0) =~= Seq::<char>::empty());
    }
    while i < n
        invariant
            chars@ == s,
            s == line@,
            n == s.len(),
            i <= n,
            i == 0 || i == n || crate::text::is_white_space(s[i as int]),
            parts_held(parts) == words(s.take(i as int)),
            parts_held(parts).len() <= parts_capacity(),
        decreases n - i,
    {
        let a = skip_white_space(chars.as_slice(), i);
        proof {
            assert forall|j: int| 0 <= j < a - i implies crate::text::is_white_space(
                s.subrange(i as int, a as int)[j],
            ) by {
                assert(s.skip(i as int)[j] == s[i + j]);
                assert(!(not_white_space())(s.skip(i as int)[j]));
            }
            assert(s.take(a as int) =~= s.take(i as int) + s.subrange(i as int, a as int));
            lemma_words_append_space(s.take(i as int), s.subrange(i as int, a as int));
        }
        if a == n {
            i = n;
        } else {
            let b = skip_word(chars.as_slice(), a);
            proof {
                assert(s.skip(a as int)[0] == s[a as int]);
                assert((not_white_space())(s.skip(a as int)[0]));
                assert(b > a);
                let t = s.subrange(a as int, b as int);
                assert forall|j: int| 0 <= j < t.len() implies !crate::text::is_white_space(t[j]) by {
                    assert(s.skip(a as int)[j] == t[j]);
                    assert(!(white_space_char())(s.skip(a as int)[j]));
                }
                assert(s.take(b as int) =~= s.take(a as int) + t);
                if a > i {
                    assert(s.take(a as int).last() == s[a - 1]);
                    assert(s.skip(i as int)[a - 1 - i] == s[a - 1]);
                    assert(!(not_white_space())(s.skip(i as int)[a - 1 - i]));
                }
                lemma_words_append_word(s.take(a as int), t);
                if b < n {
                    assert(s.skip(a as int)[b - a] == s[b as int]);
                    assert((white_space_char())(s.skip(a as int)[b - a]));
                }
            }
            let word = line.substring_char(a, b);
            if !parts.push(word) {
                proof {
                    lemma_words_grow(s.take(b as int), s.skip(b as int));
                    assert(s.take(b as int) + s.skip(b as int) =~= s);
                }
                return None;
            }
            i = b;
        }
    }
    proof {
        assert(s.take(n as int) =~= s);
    }
    Some(parts)
}

/// Whether the first line of `request` has no more words than a request
/// line is split into.
pub fn request_line_fits(request: &str) -> (fits: bool)
    ensures
        fits == (words(request_line(request@)).len() <= parts_capacity()),
{
    split_request_line(first_line(request)).is_some()
}

/// `prefix` begins `s`.
pub open spec fn has_prefix(s: Seq<char>, prefix: Seq<char>) -> bool {
    prefix.len() <= s.len() && s.take(prefix.len() as int) == prefix
}

/// The reply to the HTTP request `request`, given the index page and the
/// value of the number in the request body as parsed.
pub open spec fn request_reply<N>(request: Seq<char>, index_html: Seq<char>, number: Option<N>) -> ReplySpec<N> {
    let parts = words(request_line(request));
    if parts.len() < 2 {
        answered(400, "text/plain"@, "Bad Request"@)
    } else if parts[0] == "GET"@ && parts[1] == "/"@ {
        answered(200, "text/html"@, index_html)
    } else if parts[0] == "POST"@ && has_prefix(parts[1], "/api/"@) {
        api_reply(parts[1], request_body(request), number)
    } else {
        answered(404, "text/plain"@, "Not Found"@)
    }
}

/// The text of the number that the request `request` carries for its API
/// call, if any.
pub open spec fn request_number_text(request: Seq<char>) -> Option<Seq<char>> {
    let parts = words(request_line(request));
    if parts.len() >= 2 && parts[0] == "POST"@ && has_prefix(parts[1], "/api/"@) {
        api_number_text(parts[1], request_body(request))
    } else {
        None
    }
}

/// A request's reply carries a command exactly when it is the API's
/// acceptance: status 200 with `{"status":"ok"}` as JSON. Every refused or
/// unknown request sends nothing to the motor.
pub proof fn lemma_command_iff_accepted<N>(request: Seq<char>, index_html: Seq<char>, number: Option<N>)
    ensures
        ({
            let reply = request_reply(request, index_html, number);
            reply.command is Some <==> (reply.response.status == 200 && reply.response.content_type
                == "application/json"@ && reply.response.body == "{\"status\":\"ok\"}"@)
        }),
{
    reveal_strlit("text/html");
    reveal_strlit("application/json");
    assert("text/html"@.len() != "application/json"@.len());
}

/// `GET /` is answered with the index page, whatever else the request
/// holds.
pub proof fn lemma_get_root_serves_index<N>(request: Seq<char>, index_html: Seq<char>, number: Option<N>)
    requires
        words(request_line(request)).len() >= 2,
        words(request_line(request))[0] == "GET"@,
        words(request_line(request))[1] == "/"@,
    ensures
        request_reply(request, index_html, number) == answered::<N>(200, "text/html"@, index_html),
        request_number_text(request) is None,
{
    reveal_strlit("GET");
    reveal_strlit("POST");
    assert("GET"@.len() != "POST"@.len());
}

/// Answer an HTTP request: the index page for `GET /`, the API for a POST
/// under `/api/`, `Bad Request` when the request line has fewer than two
/// words and `Not Found` otherwise.
pub fn handle_request<'a, N, F: Fn(&str) -> Option<N>>(
    request: &str,
    index_html: &'a str,
    parse: &F,
) -> (reply: Reply<'a, N>)
    requires
        forall|s: &str| call_requires(*parse, (s,)),
        words(request_line(request@)).len() <= parts_capacity(),
    ensures
        match request_number_text(request@) {
            None => reply@ == request_reply(request@, index_html@, None::<N>),
            Some(t) => exists|s: &str, v: Option<N>|
                s@ == t && call_ensures(*parse, (s,), v) && reply@ == request_reply(
                    request@,
                    index_html@,
                    v,
                ),
        },
{
    let line = first_line(request);
    let bad = Reply {
        response: Response { status: 400, content_type: "text/plain", body: "Bad Request" },
        command: None,
    };
    let parts = match split_request_line(line) {
        Some(parts) => parts,
        None => {
            return bad;
        },
    };
    if parts.count() < 2 {
        return bad;
    }
    let method = parts.word(0);
    let path = parts.word(1);
    if same_text(method, "GET") && same_text(path, "/") {
        proof {
            reveal_strlit("GET");
            reveal_strlit("POST");
            assert("GET"@.len() == 3);
            assert("POST"@.len() == 4);
        }
        Reply {
            response: Response { status: 200, content_type: "text/html", body: index_html },
            command: None,
        }
    } else if same_text(method, "POST") && starts_with(path, "/api/") {
        let api = handle_api(path, request, parse);
        Reply { response: api.response, command: api.command }
    } else {
        Reply {
            response: Response { status: 404, content_type: "text/plain", body: "Not Found" },
            command: None,
        }
    }
}

/// `core::str::from_utf8`: the text that `bytes` encode, when they are
/// valid UTF-8.
#[verifier::external_body]
fn utf8_text(bytes: &[u8]) -> (text: Option<&str>)
    ensures
        text is Some <==> vstd::utf8::valid_utf8(bytes@),
        text matches Some(t) ==> t.spec_bytes() == bytes@,
{
    core::str::from_utf8(bytes).ok()
}

/// The text of a request received as `bytes`: their UTF-8 decoding, or
/// the empty text when they are not valid UTF-8.
pub fn request_text(bytes: &[u8]) -> (text: &str)
    ensures
        vstd::utf8::valid_utf8(bytes@) ==> text.spec_bytes() == bytes@,
        !vstd::utf8::valid_utf8(bytes@) ==> text@.len() == 0,
{
    match utf8_text(bytes) {
        Some(text) => text,
        None => {
            proof {
                reveal_strlit("");
            }
            ""
        },
    }
}


/// A `direction` member names its direction wherever it stands in the
/// body: `cw` is clockwise, `ccw` counter-clockwise, whatever text
/// (without another `"direction":"` beginning in it) comes before and
/// whatever follows.
pub proof fn lemma_direction_member(
    body: Seq<char>,
    pattern: Seq<char>,
    pre: Seq<char>,
    direction: Direction,
    more: Seq<char>,
)
    requires
        pattern == seq!['"'] + direction_key() + seq!['"', ':', '"'],
        body == pre + pattern + (if direction == Direction::Clockwise {
            seq!['c', 'w']
        } else {
            seq!['c', 'c', 'w']
        }) + seq!['"'] + more,
        forall|j: int| 0 <= j < pre.len() ==> !matches_at(body, pattern, j),
    ensures
        direction_field(body) == Some(direction),
{
    let key = direction_key();
    assert(vstd::utf8::is_ascii_chars(key));
    vstd::utf8::is_ascii_chars_encode_utf8(key);
    let name = if direction == Direction::Clockwise {
        seq!['c', 'w']
    } else {
        seq!['c', 'c', 'w']
    };
    lemma_string_member_read_anywhere(pre, key, name, more);
}

/// A POST to `/api/continuous` whose body names a direction is accepted and
/// turns the motor continuously that way; a POST to `/api/rotate` whose
/// body names a direction turns the motor by the parsed angle that way.
pub proof fn lemma_api_commands_carry_the_named_direction<N>(
    body: Seq<char>,
    pattern: Seq<char>,
    pre: Seq<char>,
    direction: Direction,
    more: Seq<char>,
    number: Option<N>,
    degrees: N,
)
    requires
        pattern == seq!['"'] + direction_key() + seq!['"', ':', '"'],
        body == pre + pattern + (if direction == Direction::Clockwise {
            seq!['c', 'w']
        } else {
            seq!['c', 'c', 'w']
        }) + seq!['"'] + more,
        forall|j: int| 0 <= j < pre.len() ==> !matches_at(body, pattern, j),
    ensures
        api_reply("/api/continuous"@, body, number).response.status == 200,
        api_reply("/api/continuous"@, body, number).command == Some(
            MotorCommand::<N>::Continuous { direction },
        ),
        api_reply("/api/rotate"@, body, Some(degrees)).response.status == 200,
        api_reply("/api/rotate"@, body, Some(degrees)).command == Some(
            MotorCommand::Rotate { degrees, direction },
        ),
{
    lemma_direction_member(body, pattern, pre, direction, more);
    reveal_strlit("/api/continuous");
    reveal_strlit("/api/rotate");
    reveal_strlit("/api/speed");
    assert("/api/continuous"@.len() != "/api/rotate"@.len());
    assert("/api/continuous"@.len() != "/api/speed"@.len());
}

/// Only a POST can drive the motor: a request whose first word is not
/// `POST` carries no command. It gets `Bad Request` when its request line
/// has fewer than two words, the index page for `GET /`, and `Not Found`
/// as plain text otherwise.
pub proof fn lemma_only_post_sends_commands<N>(request: Seq<char>, index_html: Seq<char>, number: Option<N>)
    requires
        words(request_line(request)).len() < 2 || words(request_line(request))[0] != "POST"@,
    ensures
        request_reply(request, index_html, number).command is None,
        words(request_line(request)).len() < 2 ==> request_reply(request, index_html, number)
            == answered::<N>(400, "text/plain"@, "Bad Request"@),
        words(request_line(request)).len() >= 2 && !(words(request_line(request))[0] == "GET"@
            && words(request_line(request))[1] == "/"@) ==> request_reply(
            request,
            index_html,
            number,
        ) == answered::<N>(404, "text/plain"@, "Not Found"@),
{
}

/// The body of a request is all the text after its first blank line up to
/// the next one, line breaks included: for a head in which no blank line
/// begins, a body in which none begins, and nothing or another blank line
/// after it.
pub proof fn lemma_body_between_blank_lines(head: Seq<char>, body: Seq<char>, tail: Seq<char>)
    requires
        forall|j: int|
            0 <= j < head.len() ==> !matches_at(
                head + seq!['\r', '\n', '\r', '\n'],
                seq!['\r', '\n', '\r', '\n'],
                j,
            ),
        forall|j: int|
            0 <= j < body.len() ==> !matches_at(body + tail, seq!['\r', '\n', '\r', '\n'], j),
        tail.len() == 0 || (tail.len() >= 4 && tail.take(4) == seq!['\r', '\n', '\r', '\n']),
    ensures
        request_body(head + seq!['\r', '\n', '\r', '\n'] + body + tail) == body,
{
    let blank = seq!['\r', '\n', '\r', '\n'];
    let r = head + blank + body + tail;
    let hb = head + blank;
    assert forall|j: int| 0 <= j < head.len() implies !matches_at(r, blank, j) by {
        assert(!matches_at(hb, blank, j));
        assert(j + 4 <= hb.len());
        assert(r.subrange(j, j + 4) =~= hb.subrange(j, j + 4));
    }
    assert(r.subrange(head.len() as int, head.len() + 4 as int) =~= blank);
    assert(is_first_match(r, blank, head.len() as int));
    lemma_find(r, blank);
    let rest = r.skip(head.len() + 4 as int);
    assert(rest =~= body + tail);
    lemma_find(rest, blank);
    if tail.len() == 0 {
        assert forall|j: int| !matches_at(rest, blank, j) by {
            if 0 <= j < body.len() {
            }
        }
        assert(rest =~= body);
    } else {
        assert(rest.subrange(body.len() as int, body.len() + 4 as int) =~= tail.take(4));
        assert(is_first_match(rest, blank, body.len() as int));
        assert(rest.take(body.len() as int) =~= body);
    }
}


/// The first line of a request is the text before its first line ending,
/// `\r\n` or `\n`, without that ending: for a line without `\n` and
/// anything after the ending. A request without a line ending is all one
/// line.
pub proof fn lemma_request_line_before_ending(line: Seq<char>, rest: Seq<char>)
    requires
        forall|i: int| 0 <= i < line.len() ==> line[i] != '\n',
    ensures
        request_line(line + seq!['\r', '\n'] + rest) == line,
        request_line(line + seq!['\n'] + rest) == if line.len() > 0 && line.last() == '\r' {
            line.drop_last()
        } else {
            line
        },
        request_line(line) == line,
{
    let nl = seq!['\n'];
    let a = line + seq!['\r', '\n'] + rest;
    assert(a.subrange(line.len() + 1 as int, line.len() + 2 as int) =~= nl);
    assert forall|j: int| 0 <= j < line.len() + 1 implies !matches_at(a, nl, j) by {
        if j < line.len() {
            assert(a.subrange(j, j + 1)[0] == line[j]);
        } else {
            assert(a.subrange(j, j + 1)[0] == '\r');
        }
    }
    assert(is_first_match(a, nl, line.len() + 1 as int));
    lemma_find(a, nl);
    assert(a.take(line.len() as int) =~= line);
    let b = line + nl + rest;
    assert(b.subrange(line.len() as int, line.len() + 1 as int) =~= nl);
    assert forall|j: int| 0 <= j < line.len() implies !matches_at(b, nl, j) by {
        assert(b.subrange(j, j + 1)[0] == line[j]);
    }
    assert(is_first_match(b, nl, line.len() as int));
    lemma_find(b, nl);
    assert(b.take(line.len() as int) =~= line);
    if line.len() > 0 {
        assert(b.take(line.len() - 1) =~= line.drop_last());
    }
    assert forall|j: int| !matches_at(line, nl, j) by {
        if 0 <= j < line.len() {
            assert(line.subrange(j, j + 1)[0] == line[j]);
        }
    }
    lemma_find(line, nl);
}

/// The API's routes: a stop is always accepted; a speed change is accepted
/// with the parsed speed, and refused with no command when there is none;
/// a rotation with no parsed angle is refused with no command; any other
/// path under the API is not found, as JSON, with no command.
pub proof fn lemma_api_routes<N>(path: Seq<char>, body: Seq<char>, number: Option<N>, value: N)
    ensures
        api_reply("/api/stop"@, body, number) == accepted(MotorCommand::<N>::Stop),
        api_reply("/api/speed"@, body, Some(value)) == accepted(
            MotorCommand::SetSpeed { rpm: value },
        ),
        api_reply("/api/speed"@, body, None::<N>) == answered::<N>(
            400,
            "application/json"@,
            "{\"error\":\"invalid rpm\"}"@,
        ),
        api_reply("/api/rotate"@, body, None::<N>) == answered::<N>(
            400,
            "application/json"@,
            "{\"error\":\"invalid params\"}"@,
        ),
        path != "/api/rotate"@ && path != "/api/speed"@ && path != "/api/continuous"@ && path
            != "/api/stop"@ ==> api_reply(path, body, number) == answered::<N>(
            404,
            "application/json"@,
            "{\"error\":\"not found\"}"@,
        ),
{
    reveal_strlit("/api/continuous");
    reveal_strlit("/api/rotate");
    reveal_strlit("/api/speed");
    reveal_strlit("/api/stop");
    assert("/api/stop"@.len() != "/api/rotate"@.len());
    assert("/api/stop"@.len() != "/api/speed"@.len());
    assert("/api/stop"@.len() != "/api/continuous"@.len());
    assert("/api/speed"@.len() != "/api/rotate"@.len());
}

/// The number that a speed request reads is the text of its `rpm` member,
/// and the one a rotate request reads is that of its `degrees` member,
/// wherever the member stands in the body.
pub proof fn lemma_api_reads_the_member_number(
    body: Seq<char>,
    pattern: Seq<char>,
    key: Seq<char>,
    pre: Seq<char>,
    number: Seq<char>,
    rest: Seq<char>,
)
    requires
        key == rpm_key() || key == degrees_key(),
        pattern == seq!['"'] + key + seq!['"', ':'],
        body == pre + pattern + number + rest,
        number.len() > 0,
        forall|i: int| 0 <= i < number.len() ==> crate::json::is_number_char(number[i]),
        rest.len() == 0 || !crate::json::is_number_char(rest[0]),
        forall|j: int| 0 <= j < pre.len() ==> !matches_at(body, pattern, j),
    ensures
        key == rpm_key() ==> api_number_text("/api/speed"@, body) == Some(number),
        key == degrees_key() ==> api_number_text("/api/rotate"@, body) == Some(number),
{
    assert(vstd::utf8::is_ascii_chars(key));
    vstd::utf8::is_ascii_chars_encode_utf8(key);
    crate::json::lemma_number_member_read_anywhere(pre, key, number, rest);
    reveal_strlit("/api/rotate");
    reveal_strlit("/api/speed");
    assert("/api/speed"@.len() != "/api/rotate"@.len());
}

} // verus!
