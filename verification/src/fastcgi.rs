//! One FastCGI request from its parameters to the bytes that go back.

use crate::number::{
    decimal, decimal_is_digits, decimal_is_the_number, decimal_tells_numbers_apart, digits_value,
    is_digit, to_decimal,
};
use crate::params::Params;
use crate::php_sapi::{
    after_all, get_or, headers_are_what_was_sent, headers_sent_by, output_is_what_was_written,
    param_or, written_by, Callback, Captured, RequestContext,
};
use crate::text::{
    case_is_all_that_differs, eq_ignore_ascii_case, lower_byte, push_text, same_ignoring_case,
};
use vstd::prelude::*;
use vstd::slice::slice_subrange;
use vstd::utf8::{encode_utf8, is_ascii_chars, is_ascii_chars_encode_utf8};

verus! {

/// The bytes that end a line.
pub open spec fn crlf() -> Seq<u8> {
    seq![13u8, 10u8]
}

/// Lines one after the other, each with its end.
pub open spec fn join_lines(lines: Seq<Seq<u8>>) -> Seq<u8>
    decreases lines.len(),
{
    if lines.len() == 0 {
        Seq::empty()
    } else {
        lines[0] + crlf() + join_lines(lines.drop_first())
    }
}

/// Header lines, an empty line, and a body.
pub open spec fn message(lines: Seq<Seq<u8>>, body: Seq<u8>) -> Seq<u8> {
    join_lines(lines) + crlf() + body
}

/// The words that go with a status code; `OK` for a code without words of its own.
pub open spec fn reason(code: u16) -> Seq<char> {
    if code == 301 {
        "Moved Permanently"@
    } else if code == 302 {
        "Found"@
    } else if code == 304 {
        "Not Modified"@
    } else if code == 400 {
        "Bad Request"@
    } else if code == 401 {
        "Unauthorized"@
    } else if code == 403 {
        "Forbidden"@
    } else if code == 404 {
        "Not Found"@
    } else if code == 500 {
        "Internal Server Error"@
    } else if code == 502 {
        "Bad Gateway"@
    } else if code == 503 {
        "Service Unavailable"@
    } else {
        "OK"@
    }
}

/// The line that carries the status.
pub open spec fn status_line(code: u16) -> Seq<u8> {
    encode_utf8("Status: "@) + encode_utf8(decimal(code as nat)) + encode_utf8(" "@) + encode_utf8(
        reason(code),
    )
}

/// Whether a header line sets the content type: it is longer than that name and begins with it, in
/// letters of either case.
pub open spec fn sets_content_type(line: Seq<u8>) -> bool {
    line.len() > 12 && same_ignoring_case(line.take(12), encode_utf8("content-type"@))
}

/// The header lines that PHP sent.
pub open spec fn header_lines(headers: Seq<Seq<char>>) -> Seq<Seq<u8>> {
    headers.map_values(|header: Seq<char>| encode_utf8(header))
}

/// The line for a response that sets no content type of its own.
pub open spec fn default_content_type() -> Seq<u8> {
    encode_utf8("Content-Type: text/html; charset=UTF-8"@)
}

/// Whether one of the header lines sets the content type.
pub open spec fn any_sets_content_type(lines: Seq<Seq<u8>>) -> bool {
    exists|i: int| 0 <= i < lines.len() && #[trigger] sets_content_type(lines[i])
}

/// All header lines of a response: the status, what PHP sent, and a content type if none was set.
pub open spec fn response_lines(captured: Captured) -> Seq<Seq<u8>> {
    let sent = header_lines(captured.headers);
    let lines = seq![status_line(captured.status)] + sent;
    if any_sets_content_type(sent) {
        lines
    } else {
        lines.push(default_content_type())
    }
}

/// The response for what PHP produced.
pub open spec fn response_bytes(captured: Captured) -> Seq<u8> {
    message(response_lines(captured), captured.output)
}

proof fn join_lines_push(lines: Seq<Seq<u8>>, line: Seq<u8>)
    ensures
        join_lines(lines.push(line)) == join_lines(lines) + line + crlf(),
    decreases lines.len(),
{
    reveal_with_fuel(join_lines, 2);
    if lines.len() == 0 {
        assert(lines.push(line).drop_first() =~= lines);
        assert(join_lines(lines.push(line)) =~= join_lines(lines) + line + crlf());
    } else {
        join_lines_push(lines.drop_first(), line);
        assert(lines.push(line).drop_first() =~= lines.drop_first().push(line));
        assert(join_lines(lines.push(line)) =~= join_lines(lines) + line + crlf());
    }
}

fn reason_text(code: u16) -> (text: &'static str)
    ensures
        text@ == reason(code),
{
    match code {
        200 => "OK",
        301 => "Moved Permanently",
        302 => "Found",
        304 => "Not Modified",
        400 => "Bad Request",
        401 => "Unauthorized",
        403 => "Forbidden",
        404 => "Not Found",
        500 => "Internal Server Error",
        502 => "Bad Gateway",
        503 => "Service Unavailable",
        _ => "OK",
    }
}

fn push_crlf(bytes: &mut Vec<u8>)
    ensures
        final(bytes)@ == old(bytes)@ + crlf(),
{
    bytes.push(13);
    bytes.push(10);
    assert(bytes@ =~= old(bytes)@ + crlf());
}

fn is_content_type(header: &str) -> (yes: bool)
    ensures
        yes == sets_content_type(encode_utf8(header@)),
{
    let bytes = header.as_bytes();
    if bytes.len() > 12 {
        let start = slice_subrange(bytes, 0, 12);
        assert(start@ =~= bytes@.take(12));
        eq_ignore_ascii_case(start, "content-type".as_bytes())
    } else {
        false
    }
}

/// Writes the response for FastCGI STDOUT: a `Status` line, the headers, an empty line, the body.
pub fn format_response(ctx: &RequestContext) -> (response: Vec<u8>)
    ensures
        response@ == response_bytes(ctx.captured()),
        response@.len() >= ctx.output_buffer@.len(),
        response@.skip(response@.len() - ctx.output_buffer@.len()) == ctx.output_buffer@,
{
    let ghost captured = ctx.captured();
    let ghost sent = header_lines(captured.headers);
    let ghost first = seq![status_line(captured.status)];
    let mut response: Vec<u8> = Vec::new();

    push_text(&mut response, "Status: ");
    let code = to_decimal(ctx.http_status_code as u64);
    push_text(&mut response, code.as_str());
    push_text(&mut response, " ");
    push_text(&mut response, reason_text(ctx.http_status_code));
    push_crlf(&mut response);
    proof {
        join_lines_push(Seq::empty(), status_line(captured.status));
        assert(Seq::empty().push(status_line(captured.status)) =~= first);
        assert(response@ =~= join_lines(first));
        assert(first + sent.take(0) =~= first);
    }

    let mut has_content_type = false;
    let mut i: usize = 0;
    while i < ctx.response_headers.len()
        invariant
            i <= ctx.response_headers@.len(),
            captured == ctx.captured(),
            sent == header_lines(captured.headers),
            response@ == join_lines(first + sent.take(i as int)),
            has_content_type == any_sets_content_type(sent.take(i as int)),
        decreases ctx.response_headers@.len() - i,
    {
        let header = ctx.response_headers[i].as_str();
        assert(sent[i as int] == encode_utf8(header@));
        push_text(&mut response, header);
        push_crlf(&mut response);
        let sets: bool = is_content_type(header);
        proof {
            let before = sent.take(i as int);
            let now = sent.take(i + 1);
            assert(now =~= before.push(sent[i as int]));
            join_lines_push(first + before, sent[i as int]);
            assert(first + now =~= (first + before).push(sent[i as int]));
            assert(now[i as int] == sent[i as int]);
            if any_sets_content_type(before) {
                let j = choose|j: int| 0 <= j < before.len() && #[trigger] sets_content_type(before[j]);
                assert(sets_content_type(now[j]));
            }
            if any_sets_content_type(now) && !sets {
                let j = choose|j: int| 0 <= j < now.len() && #[trigger] sets_content_type(now[j]);
                assert(sets_content_type(before[j]));
            }
            if sets {
                assert(sets_content_type(now[i as int]));
            }
        }
        if sets {
            has_content_type = true;
        }
        i = i + 1;
    }
    assert(sent.take(sent.len() as int) =~= sent);

    if !has_content_type {
        push_text(&mut response, "Content-Type: text/html; charset=UTF-8");
        push_crlf(&mut response);
        proof {
            join_lines_push(first + sent, default_content_type());
        }
    }
    push_crlf(&mut response);
    let ghost head = response@;
    response.extend_from_slice(ctx.output_buffer.as_slice());
    assert(response@ =~= head + ctx.output_buffer@);
    assert(response@.skip(head.len() as int) =~= ctx.output_buffer@);
    response
}

/// What goes back for a request.
pub struct Reply {
    /// Bytes for FastCGI STDOUT
    pub stdout: Vec<u8>,
    /// Status with which the request is completed
    pub app_status: u32,
}

/// A short answer in plain text.
pub open spec fn plain_reply(status: Seq<char>, text: Seq<char>) -> Seq<u8> {
    message(
        seq![encode_utf8(status), encode_utf8("Content-Type: text/plain"@)],
        encode_utf8(text),
    )
}

/// The answer to a request that names no script.
pub open spec fn no_script_reply() -> Seq<u8> {
    plain_reply("Status: 404 Not Found"@, "No SCRIPT_FILENAME"@)
}

/// The answer to a request in which the server itself failed.
pub open spec fn failure_reply() -> Seq<u8> {
    plain_reply("Status: 500 Internal Server Error"@, "Internal error"@)
}

fn plain_text(status: &str, text: &str) -> (bytes: Vec<u8>)
    ensures
        bytes@ == plain_reply(status@, text@),
{
    let mut bytes: Vec<u8> = Vec::new();
    push_text(&mut bytes, status);
    push_crlf(&mut bytes);
    push_text(&mut bytes, "Content-Type: text/plain");
    push_crlf(&mut bytes);
    proof {
        let first = encode_utf8(status@);
        let second = encode_utf8("Content-Type: text/plain"@);
        join_lines_push(Seq::empty(), first);
        join_lines_push(Seq::empty().push(first), second);
        assert(Seq::empty().push(first).push(second) =~= seq![first, second]);
        assert(bytes@ =~= join_lines(seq![first, second]));
    }
    push_crlf(&mut bytes);
    push_text(&mut bytes, text);
    bytes
}

/// What to do with a request.
pub enum Step {
    /// Answer at once, without PHP.
    Answer(Reply),
    /// Have PHP run it.
    Execute(RequestContext),
}

/// A request as it is taken up.
pub struct RequestPlan {
    pub method: String,
    pub uri: String,
    pub script: String,
    pub step: Step,
}

/// Takes up a request: PHP runs it if it names a script.
pub fn begin_request(params: Params, post_body: Vec<u8>) -> (plan: RequestPlan)
    ensures
        plan.method@ == param_or(params@, "REQUEST_METHOD"@, "GET"@),
        plan.uri@ == param_or(params@, "REQUEST_URI"@, "/"@),
        plan.script@ == param_or(params@, "SCRIPT_FILENAME"@, Seq::empty()),
        match plan.step {
            Step::Answer(reply) => {
                &&& plan.script@.len() == 0
                &&& reply.stdout@ == no_script_reply()
                &&& reply.app_status == 0
            },
            Step::Execute(ctx) => {
                &&& plan.script@.len() > 0
                &&& ctx.params == params
                &&& ctx.post_body == post_body
                &&& ctx.post_read_offset == 0
                &&& ctx.captured() == fresh()
                &&& ctx.output_buffer@.len() == 0
                &&& ctx.response_headers@.len() == 0
                &&& ctx.http_status_code == 200
                &&& !ctx.request_finished
            },
        },
        plan.step is Execute <==> params@.dom().contains("SCRIPT_FILENAME"@)
            && params@["SCRIPT_FILENAME"@].len() > 0,
        params@.dom().contains("REQUEST_METHOD"@) ==> plan.method@ == params@["REQUEST_METHOD"@],
        params@.dom().contains("REQUEST_URI"@) ==> plan.uri@ == params@["REQUEST_URI"@],
        params@.dom().contains("SCRIPT_FILENAME"@) ==> plan.script@ == params@["SCRIPT_FILENAME"@],
{
    let method = get_or(&params, "REQUEST_METHOD", "GET").to_owned();
    let uri = get_or(&params, "REQUEST_URI", "/").to_owned();
    let script = match params.get("SCRIPT_FILENAME") {
        Some(path) => path.to_owned(),
        None => String::new(),
    };
    let step = if script.as_str().is_empty() {
        Step::Answer(
            Reply {
                stdout: plain_text("Status: 404 Not Found", "No SCRIPT_FILENAME"),
                app_status: 0,
            },
        )
    } else {
        let ctx = RequestContext::new(params, post_body);
        assert(ctx.captured() =~= fresh());
        Step::Execute(ctx)
    };
    RequestPlan { method, uri, script, step }
}

/// What a request has produced before PHP starts on it.
pub open spec fn fresh() -> Captured {
    Captured { output: Seq::empty(), headers: Seq::empty(), status: 200, finished: false }
}

/// Ends a request: with what PHP produced, or with an error if running PHP failed.
pub fn finish_request(outcome: Option<RequestContext>) -> (reply: Reply)
    ensures
        match outcome {
            Some(ctx) => reply.stdout@ == response_bytes(ctx.captured()) && reply.app_status == 0,
            None => reply.stdout@ == failure_reply() && reply.app_status == 1,
        },
{
    match outcome {
        Some(ctx) => Reply { stdout: format_response(&ctx), app_status: 0 },
        None => Reply {
            stdout: plain_text("Status: 500 Internal Server Error", "Internal error"),
            app_status: 1,
        },
    }
}

/// Whether a line ends at position `i`.
pub open spec fn line_ends_at(bytes: Seq<u8>, i: int) -> bool {
    0 <= i && i + 1 < bytes.len() && bytes[i] == 13 && bytes[i + 1] == 10
}

/// Whether a line end stands somewhere inside.
pub open spec fn holds_line_end(bytes: Seq<u8>) -> bool {
    exists|i: int| #[trigger] line_ends_at(bytes, i)
}

/// The first position from `i` on at which a line ends, or the length where none does.
pub open spec fn line_end(bytes: Seq<u8>, i: int) -> int
    decreases bytes.len() - i,
{
    if i >= bytes.len() || line_ends_at(bytes, i) {
        i
    } else {
        line_end(bytes, i + 1)
    }
}

/// How a peer reads a response: lines up to an empty one, and behind that the body.
pub open spec fn read_message(bytes: Seq<u8>) -> (Seq<Seq<u8>>, Seq<u8>)
    decreases bytes.len(),
{
    let end = line_end(bytes, 0);
    if !line_ends_at(bytes, end) {
        (Seq::empty(), bytes)
    } else if end == 0 {
        (Seq::empty(), bytes.skip(2))
    } else {
        let rest = read_message(bytes.skip(end + 2));
        (seq![bytes.take(end)] + rest.0, rest.1)
    }
}

/// Whether lines can be told apart again once they are joined: none is empty, none holds a line end.
pub open spec fn proper_lines(lines: Seq<Seq<u8>>) -> bool {
    forall|i: int|
        0 <= i < lines.len() ==> (#[trigger] lines[i]).len() > 0 && !holds_line_end(lines[i])
}

proof fn line_end_found(line: Seq<u8>, rest: Seq<u8>, i: int)
    requires
        !holds_line_end(line),
        0 <= i <= line.len(),
    ensures
        line_end(line + crlf() + rest, i) == line.len(),
        line_ends_at(line + crlf() + rest, line.len() as int),
    decreases line.len() - i,
{
    let bytes = line + crlf() + rest;
    assert(bytes[line.len() as int] == 13);
    assert(bytes[line.len() as int + 1] == 10);
    if i < line.len() {
        assert(bytes[i] == line[i]);
        if i + 1 < line.len() {
            assert(bytes[i + 1] == line[i + 1]);
        }
        assert(!line_ends_at(line, i));
        line_end_found(line, rest, i + 1);
    }
}

/// Header lines and a body read back from a message as they went in, if the lines can be told
/// apart.
pub proof fn message_reads_back(lines: Seq<Seq<u8>>, body: Seq<u8>)
    requires
        proper_lines(lines),
    ensures
        read_message(message(lines, body)) == (lines, body),
    decreases lines.len(),
{
    let bytes = message(lines, body);
    if lines.len() == 0 {
        let none = Seq::<u8>::empty();
        assert(bytes =~= none + crlf() + body);
        line_end_found(none, body, 0);
        assert(bytes.skip(2) =~= body);
        assert(lines =~= Seq::empty());
    } else {
        let line = lines[0];
        let rest = message(lines.drop_first(), body);
        assert(bytes =~= line + crlf() + rest);
        line_end_found(line, rest, 0);
        assert(bytes.take(line.len() as int) =~= line);
        assert(bytes.skip(line.len() as int + 2) =~= rest);
        assert(proper_lines(lines.drop_first())) by {
            assert forall|i: int| 0 <= i < lines.drop_first().len() implies (
            #[trigger] lines.drop_first()[i]).len() > 0 && !holds_line_end(lines.drop_first()[i]) by {
                assert(lines.drop_first()[i] == lines[i + 1]);
            }
        }
        message_reads_back(lines.drop_first(), body);
        assert(seq![line] + lines.drop_first() =~= lines);
    }
}

proof fn ascii_line_is_proper(text: Seq<char>)
    requires
        is_ascii_chars(text),
        text.len() > 0,
        forall|i: int| 0 <= i < text.len() ==> #[trigger] text[i] != '\r',
    ensures
        encode_utf8(text).len() == text.len(),
        forall|i: int| 0 <= i < text.len() ==> #[trigger] encode_utf8(text)[i] != 13,
        !holds_line_end(encode_utf8(text)),
{
    is_ascii_chars_encode_utf8(text);
    assert forall|i: int| 0 <= i < text.len() implies #[trigger] encode_utf8(text)[i] != 13 by {
        assert(text[i] as u8 == encode_utf8(text)[i]);
        assert('\0' <= text[i] <= '\u{7f}');
        assert(text[i] != '\r');
    }
}

proof fn reason_is_plain(code: u16)
    ensures
        is_ascii_chars(reason(code)),
        reason(code).len() > 0,
        forall|i: int| 0 <= i < reason(code).len() ==> #[trigger] reason(code)[i] != '\r',
{
    reveal_strlit("OK");
    reveal_strlit("Moved Permanently");
    reveal_strlit("Found");
    reveal_strlit("Not Modified");
    reveal_strlit("Bad Request");
    reveal_strlit("Unauthorized");
    reveal_strlit("Forbidden");
    reveal_strlit("Not Found");
    reveal_strlit("Internal Server Error");
    reveal_strlit("Bad Gateway");
    reveal_strlit("Service Unavailable");
}

proof fn status_line_is_proper(code: u16)
    ensures
        status_line(code).len() > 0,
        !holds_line_end(status_line(code)),
{
    reveal_strlit("Status: ");
    reveal_strlit(" ");
    let number = decimal(code as nat);
    decimal_is_digits(code as nat);
    assert forall|i: int| 0 <= i < number.len() implies '\0' <= #[trigger] number[i] <= '\u{7f}'
        && number[i] != '\r' by {
        assert(is_digit(number[i], 10));
    }
    reason_is_plain(code);
    ascii_line_is_proper("Status: "@);
    ascii_line_is_proper(number);
    ascii_line_is_proper(" "@);
    ascii_line_is_proper(reason(code));
    let line = status_line(code);
    assert(forall|i: int| 0 <= i < line.len() ==> #[trigger] line[i] != 13);
}

proof fn default_content_type_is_proper()
    ensures
        default_content_type().len() > 0,
        !holds_line_end(default_content_type()),
        sets_content_type(default_content_type()),
{
    reveal_strlit("Content-Type: text/html; charset=UTF-8");
    reveal_strlit("content-type");
    let text = "Content-Type: text/html; charset=UTF-8"@;
    let name = "content-type"@;
    ascii_line_is_proper(text);
    ascii_line_is_proper(name);
    is_ascii_chars_encode_utf8(text);
    is_ascii_chars_encode_utf8(name);
    assert forall|i: int| 0 <= i < 12 implies lower_byte(#[trigger] default_content_type().take(12)[i])
        == lower_byte(encode_utf8(name)[i]) by {
        assert(encode_utf8(text)[i] == text[i] as u8);
        assert(encode_utf8(name)[i] == name[i] as u8);
    }
}

/// A peer reads from a response the status, then the headers that PHP sent, in order, then a
/// content type if PHP set none, and as the body exactly what PHP wrote.
///
/// The headers that PHP sent have to be proper lines.
pub proof fn response_reads_back(captured: Captured)
    requires
        proper_lines(header_lines(captured.headers)),
    ensures
        read_message(response_bytes(captured)) == (response_lines(captured), captured.output),
{
    let sent = header_lines(captured.headers);
    let lines = response_lines(captured);
    status_line_is_proper(captured.status);
    default_content_type_is_proper();
    assert forall|i: int| 0 <= i < lines.len() implies (#[trigger] lines[i]).len() > 0
        && !holds_line_end(lines[i]) by {
        if 0 < i && i <= sent.len() {
            assert(lines[i] == sent[i - 1]);
        }
    }
    message_reads_back(lines, captured.output);
}

/// Every response sets a content type.
pub proof fn response_sets_content_type(captured: Captured)
    ensures
        any_sets_content_type(response_lines(captured)),
{
    let sent = header_lines(captured.headers);
    let lines = response_lines(captured);
    if any_sets_content_type(sent) {
        let i = choose|i: int| 0 <= i < sent.len() && #[trigger] sets_content_type(sent[i]);
        assert(lines[i + 1] == sent[i]);
        assert(sets_content_type(lines[i + 1]));
    } else {
        default_content_type_is_proper();
        assert(sets_content_type(lines[lines.len() - 1]));
    }
}

/// The answers without PHP read back as a status, a content type and a text.
pub proof fn plain_replies_read_back()
    ensures
        read_message(no_script_reply()) == (
            seq![encode_utf8("Status: 404 Not Found"@), encode_utf8("Content-Type: text/plain"@)],
            encode_utf8("No SCRIPT_FILENAME"@),
        ),
        read_message(failure_reply()) == (
            seq![
                encode_utf8("Status: 500 Internal Server Error"@),
                encode_utf8("Content-Type: text/plain"@),
            ],
            encode_utf8("Internal error"@),
        ),
{
    reveal_strlit("Status: 404 Not Found");
    reveal_strlit("Status: 500 Internal Server Error");
    reveal_strlit("Content-Type: text/plain");
    ascii_line_is_proper("Status: 404 Not Found"@);
    ascii_line_is_proper("Status: 500 Internal Server Error"@);
    ascii_line_is_proper("Content-Type: text/plain"@);
    message_reads_back(
        seq![encode_utf8("Status: 404 Not Found"@), encode_utf8("Content-Type: text/plain"@)],
        encode_utf8("No SCRIPT_FILENAME"@),
    );
    message_reads_back(
        seq![
            encode_utf8("Status: 500 Internal Server Error"@),
            encode_utf8("Content-Type: text/plain"@),
        ],
        encode_utf8("Internal error"@),
    );
}

/// From PHP to the peer: the peer reads as the body all that PHP wrote until it ended the request,
/// and finds the status first and behind it the headers that PHP sent, in order.
pub proof fn peer_reads_what_php_wrote(calls: Seq<Callback>)
    requires
        proper_lines(header_lines(headers_sent_by(calls))),
    ensures
        ({
            let read = read_message(response_bytes(after_all(fresh(), calls)));
            let sent = header_lines(headers_sent_by(calls));
            &&& read.1 == written_by(calls)
            &&& read.0.len() > sent.len()
            &&& read.0[0] == status_line(after_all(fresh(), calls).status)
            &&& read.0.subrange(1, sent.len() as int + 1) == sent
        }),
{
    let captured = after_all(fresh(), calls);
    output_is_what_was_written(fresh(), calls);
    headers_are_what_was_sent(fresh(), calls);
    assert(fresh().output + written_by(calls) =~= written_by(calls));
    assert(fresh().headers + headers_sent_by(calls) =~= headers_sent_by(calls));
    response_reads_back(captured);
    let sent = header_lines(headers_sent_by(calls));
    assert(response_lines(captured).subrange(1, sent.len() as int + 1) =~= sent);
}

/// The words for each status code: eleven codes have their own, and all others are `OK`.
pub proof fn reasons(code: u16)
    ensures
        reason(200) == "OK"@,
        reason(301) == "Moved Permanently"@,
        reason(302) == "Found"@,
        reason(304) == "Not Modified"@,
        reason(400) == "Bad Request"@,
        reason(401) == "Unauthorized"@,
        reason(403) == "Forbidden"@,
        reason(404) == "Not Found"@,
        reason(500) == "Internal Server Error"@,
        reason(502) == "Bad Gateway"@,
        reason(503) == "Service Unavailable"@,
        code != 301 && code != 302 && code != 304 && code != 400 && code != 401 && code != 403
            && code != 404 && code != 500 && code != 502 && code != 503 ==> reason(code) == "OK"@,
{
}

/// The first line of a response gives the status code: behind `Status: ` stands a row of decimal
/// digits whose value is exactly the code, then a space and the words for it.
pub proof fn status_line_gives_the_code(code: u16) -> (row: Seq<char>)
    ensures
        row.len() > 0,
        forall|i: int| 0 <= i < row.len() ==> 48 <= (#[trigger] row[i]) as int <= 57,
        digits_value(row, 10) == code,
        row[0] == '0' ==> code == 0,
        status_line(code) == encode_utf8("Status: "@) + encode_utf8(row) + encode_utf8(" "@)
            + encode_utf8(reason(code)),
{
    decimal_is_the_number(code as nat);
    decimal(code as nat)
}

/// Different status codes have different first lines.
pub proof fn status_lines_tell_codes_apart(a: u16, b: u16)
    ensures
        status_line(a) == status_line(b) ==> a == b,
{
    if status_line(a) == status_line(b) {
        let line = status_line(a);
        reveal_strlit("Status: ");
        reveal_strlit(" ");
        ascii_line_is_proper("Status: "@);
        ascii_line_is_proper(" "@);
        is_ascii_chars_encode_utf8(" "@);
        let start = encode_utf8("Status: "@).len() as int;
        let m = decimal(a as nat);
        let n = decimal(b as nat);
        digits_are_plain(a as nat);
        digits_are_plain(b as nat);
        // The first space behind the start ends the digits, on both sides.
        assert(encode_utf8(" "@)[0] == 32);
        assert forall|i: int| 0 <= i < m.len() implies line[start + i] == m[i] as u8 by {}
        assert forall|i: int| 0 <= i < n.len() implies line[start + i] == n[i] as u8 by {}
        assert(line[start + m.len()] == 32);
        assert(line[start + n.len()] == 32);
        if m.len() < n.len() {
            assert(n[m.len() as int] as u8 == 32);
        }
        if n.len() < m.len() {
            assert(m[n.len() as int] as u8 == 32);
        }
        assert forall|i: int| 0 <= i < m.len() implies m[i] == n[i] by {
            assert(m[i] as u8 == n[i] as u8);
            assert(48 <= m[i] as int <= 57);
            assert(48 <= n[i] as int <= 57);
        }
        assert(m =~= n);
        decimal_tells_numbers_apart(a as nat, b as nat);
    }
}

proof fn digits_are_plain(n: nat)
    ensures
        encode_utf8(decimal(n)).len() == decimal(n).len(),
        forall|i: int|
            0 <= i < decimal(n).len() ==> {
                &&& 48 <= (#[trigger] decimal(n)[i]) as int <= 57
                &&& encode_utf8(decimal(n))[i] == decimal(n)[i] as u8
                &&& decimal(n)[i] as u8 != 32
            },
{
    decimal_is_the_number(n);
    let number = decimal(n);
    assert forall|i: int| 0 <= i < number.len() implies '\0' <= #[trigger] number[i] <= '\u{7f}' by {
        assert(48 <= decimal(n)[i] as int <= 57);
    }
    assert(is_ascii_chars(number));
    is_ascii_chars_encode_utf8(number);
}

/// A header line sets the content type if and only if it has more than twelve bytes, and the first
/// twelve are those of `content-type`, in letters of either case.
pub proof fn content_type_lines(line: Seq<u8>)
    ensures
        sets_content_type(line) <==> line.len() > 12 && forall|i: int|
            0 <= i < 12 ==> {
                ||| #[trigger] line[i] == "content-type"@[i] as u8
                ||| i != 7 && line[i] == "content-type"@[i] as u8 - 32
            },
{
    reveal_strlit("content-type");
    let name = "content-type"@;
    is_ascii_chars_encode_utf8(name);
    let start = line.take(12);
    case_is_all_that_differs(start, encode_utf8(name));
    assert(forall|i: int| 0 <= i < 12 ==> encode_utf8(name)[i] == #[trigger] name[i] as u8);
    if line.len() > 12 {
        assert(forall|i: int| 0 <= i < 12 ==> #[trigger] start[i] == line[i]);
        if forall|i: int|
            0 <= i < 12 ==> {
                ||| #[trigger] line[i] == name[i] as u8
                ||| i != 7 && line[i] == name[i] as u8 - 32
            } {
            assert forall|i: int| 0 <= i < start.len() implies {
                ||| #[trigger] start[i] == encode_utf8(name)[i]
                ||| 65 <= start[i] <= 90 && encode_utf8(name)[i] == start[i] + 32
                ||| 65 <= encode_utf8(name)[i] <= 90 && start[i] == encode_utf8(name)[i] + 32
            } by {
                assert(start[i] == line[i]);
                assert(encode_utf8(name)[i] == name[i] as u8);
            }
        }
        if same_ignoring_case(start, encode_utf8(name)) {
            assert forall|i: int| 0 <= i < 12 implies {
                ||| #[trigger] line[i] == name[i] as u8
                ||| i != 7 && line[i] == name[i] as u8 - 32
            } by {
                assert(start[i] == line[i]);
                assert(encode_utf8(name)[i] == name[i] as u8);
            }
        }
    }
}

proof fn joined_lines_are_flat(lines: Seq<Seq<u8>>)
    ensures
        join_lines(lines) == lines.map_values(|line: Seq<u8>| line + seq![13u8, 10u8]).flatten(),
    decreases lines.len(),
{
    let ended = |line: Seq<u8>| line + seq![13u8, 10u8];
    let all = lines.map_values(ended);
    if lines.len() > 0 {
        joined_lines_are_flat(lines.drop_first());
        assert(all.drop_first() =~= lines.drop_first().map_values(ended));
        assert(all.first() == lines[0] + crlf());
    } else {
        assert(all =~= Seq::empty());
    }
}

proof fn joined_lines_join(a: Seq<Seq<u8>>, b: Seq<Seq<u8>>)
    ensures
        join_lines(a + b) == join_lines(a) + join_lines(b),
    decreases a.len(),
{
    if a.len() == 0 {
        assert(a + b =~= b);
        assert(join_lines(a) + join_lines(b) =~= join_lines(b));
    } else {
        joined_lines_join(a.drop_first(), b);
        assert((a + b).drop_first() =~= a.drop_first() + b);
        assert(join_lines(a + b) =~= join_lines(a) + join_lines(b));
    }
}

/// A response in full: the status line, each header as PHP sent it, in order and on a line of its
/// own, a content type if no header sets one, an empty line, and the output, unchanged.
pub proof fn response_in_full(captured: Captured)
    ensures
        response_bytes(captured) == status_line(captured.status) + seq![13u8, 10u8]
            + captured.headers.map_values(
            |header: Seq<char>| encode_utf8(header) + seq![13u8, 10u8],
        ).flatten() + (if exists|i: int|
            0 <= i < captured.headers.len() && sets_content_type(
                encode_utf8(#[trigger] captured.headers[i]),
            ) {
            Seq::empty()
        } else {
            encode_utf8("Content-Type: text/html; charset=UTF-8"@) + seq![13u8, 10u8]
        }) + seq![13u8, 10u8] + captured.output,
{
    let sent = header_lines(captured.headers);
    let first = seq![status_line(captured.status)];
    let flat = captured.headers.map_values(
        |header: Seq<char>| encode_utf8(header) + seq![13u8, 10u8],
    );
    joined_lines_are_flat(sent);
    assert(sent.map_values(|line: Seq<u8>| line + seq![13u8, 10u8]) =~= flat);
    joined_lines_join(first, sent);
    joined_lines_join(first + sent, seq![default_content_type()]);
    assert((first + sent).push(default_content_type()) =~= first + sent
        + seq![default_content_type()]);
    join_lines_push(Seq::empty(), status_line(captured.status));
    assert(Seq::empty().push(status_line(captured.status)) =~= first);
    join_lines_push(Seq::empty(), default_content_type());
    assert(Seq::empty().push(default_content_type()) =~= seq![default_content_type()]);
    if any_sets_content_type(sent) {
        let i = choose|i: int| 0 <= i < sent.len() && #[trigger] sets_content_type(sent[i]);
        assert(sets_content_type(encode_utf8(captured.headers[i])));
    }
    if exists|i: int|
        0 <= i < captured.headers.len() && sets_content_type(
            encode_utf8(#[trigger] captured.headers[i]),
        ) {
        let i = choose|i: int|
            0 <= i < captured.headers.len() && sets_content_type(
                encode_utf8(#[trigger] captured.headers[i]),
            );
        assert(sets_content_type(sent[i]));
    }
}

/// The answers without PHP, in full.
pub proof fn plain_replies_in_full()
    ensures
        no_script_reply() == encode_utf8("Status: 404 Not Found"@) + seq![13u8, 10u8] + encode_utf8(
            "Content-Type: text/plain"@,
        ) + seq![13u8, 10u8, 13u8, 10u8] + encode_utf8("No SCRIPT_FILENAME"@),
        failure_reply() == encode_utf8("Status: 500 Internal Server Error"@) + seq![13u8, 10u8]
            + encode_utf8("Content-Type: text/plain"@) + seq![13u8, 10u8, 13u8, 10u8]
            + encode_utf8("Internal error"@),
{
    plain_reply_in_full("Status: 404 Not Found"@, "No SCRIPT_FILENAME"@);
    plain_reply_in_full("Status: 500 Internal Server Error"@, "Internal error"@);
}

proof fn plain_reply_in_full(status: Seq<char>, text: Seq<char>)
    ensures
        plain_reply(status, text) == encode_utf8(status) + seq![13u8, 10u8] + encode_utf8(
            "Content-Type: text/plain"@,
        ) + seq![13u8, 10u8, 13u8, 10u8] + encode_utf8(text),
{
    let first = encode_utf8(status);
    let second = encode_utf8("Content-Type: text/plain"@);
    join_lines_push(Seq::empty(), first);
    join_lines_push(Seq::empty().push(first), second);
    assert(Seq::empty().push(first).push(second) =~= seq![first, second]);
    assert(plain_reply(status, text) =~= first + seq![13u8, 10u8] + second + seq![
        13u8,
        10u8,
        13u8,
        10u8,
    ] + encode_utf8(text));
}

/// A request that PHP has not started on has produced nothing, and would be a success.
pub proof fn fresh_is_empty()
    ensures
        fresh().output.len() == 0,
        fresh().headers.len() == 0,
        fresh().status == 200,
        !fresh().finished,
{
}

} // verus!
