//! What PHP asks of its server while a request runs: output, headers, the POST body, cookies, the
//! `$_SERVER` variables, and the strings that describe the request.
//!
//! Each function decides one of PHP's callbacks. `None` stands for a null pointer: no request
//! context is attached, or PHP passed nothing.

use crate::number::{
    decimal, decimal_is_digits, decimal_reads_back, digits_value, is_digit,
    other_texts_are_no_numbers, parse_i64, signed_number, signed_numbers, signed_rows_of_digits,
    within,
};
use crate::params::{distinct_names, pairs_map, pairs_map_names, pairs_view, Pair, Params};
use crate::text::{
    has_nul, holds_nul, lossy_text, lossy_utf8, nul_is_number_zero, optional_text, utf8_text,
};
use vstd::prelude::*;
use vstd::slice::{slice_subrange, slice_to_vec};
use vstd::utf8::{decode_utf8, encode_utf8, valid_utf8};

verus! {

/// One request while PHP works on it.
pub struct RequestContext {
    /// FastCGI parameters with upper-case names
    pub params: Params,
    /// POST body from FastCGI STDIN
    pub post_body: Vec<u8>,
    /// How many POST bytes PHP has read so far
    pub post_read_offset: usize,
    /// Captured PHP output
    pub output_buffer: Vec<u8>,
    /// Captured response headers, each of the form `Name: Value`
    pub response_headers: Vec<String>,
    /// HTTP status code from PHP
    pub http_status_code: u16,
    /// Set when PHP has ended the request
    pub request_finished: bool,
}

/// The texts of the response headers.
pub open spec fn headers_view(headers: Seq<String>) -> Seq<Seq<char>> {
    headers.map_values(|header: String| header@)
}

/// What a request has produced so far.
#[verifier::ext_equal]
pub struct Captured {
    pub output: Seq<u8>,
    pub headers: Seq<Seq<char>>,
    pub status: u16,
    pub finished: bool,
}

impl Captured {
    /// Once PHP has written some bytes: they are kept until the request finishes.
    pub open spec fn written(self, data: Option<Seq<u8>>) -> Captured {
        match data {
            Some(bytes) => if self.finished {
                self
            } else {
                Captured { output: self.output + bytes, ..self }
            },
            None => self,
        }
    }

    /// Once PHP has sent a header: it is kept unless it is empty or not UTF-8.
    pub open spec fn with_header(self, header: Option<Seq<u8>>) -> Captured {
        match header {
            Some(bytes) => if bytes.len() > 0 && valid_utf8(bytes) {
                Captured { headers: self.headers.push(decode_utf8(bytes)), ..self }
            } else {
                self
            },
            None => self,
        }
    }

    /// Once PHP has settled its response code.
    pub open spec fn with_code(self, code: Option<i32>) -> Captured {
        match code {
            Some(n) => Captured { status: status_from(n), ..self },
            None => self,
        }
    }

    /// Once PHP has ended the request.
    pub open spec fn ended(self) -> Captured {
        Captured { finished: true, ..self }
    }
}

impl RequestContext {
    /// What the request has produced so far.
    pub open spec fn captured(self) -> Captured {
        Captured {
            output: self.output_buffer@,
            headers: headers_view(self.response_headers@),
            status: self.http_status_code,
            finished: self.request_finished,
        }
    }

    /// A request that PHP has not started on.
    pub fn new(params: Params, post_body: Vec<u8>) -> (ctx: RequestContext)
        ensures
            ctx.params == params,
            ctx.post_body == post_body,
            ctx.post_read_offset == 0,
            ctx.output_buffer@ == Seq::<u8>::empty(),
            ctx.response_headers@ == Seq::<String>::empty(),
            ctx.http_status_code == 200,
            !ctx.request_finished,
    {
        RequestContext {
            params,
            post_body,
            post_read_offset: 0,
            output_buffer: Vec::with_capacity(65536),
            response_headers: Vec::new(),
            http_status_code: 200,
            request_finished: false,
        }
    }

    /// An answer without PHP: the status, and the message as the body.
    pub fn error_response(status: u16, message: &str) -> (ctx: RequestContext)
        ensures
            ctx.params@ == Map::<Seq<char>, Seq<char>>::empty(),
            ctx.post_body@ == Seq::<u8>::empty(),
            ctx.post_read_offset == 0,
            ctx.output_buffer@ == encode_utf8(message@),
            ctx.response_headers@ == Seq::<String>::empty(),
            ctx.http_status_code == status,
            ctx.request_finished,
    {
        RequestContext {
            params: Params::new(),
            post_body: Vec::new(),
            post_read_offset: 0,
            output_buffer: slice_to_vec(message.as_bytes()),
            response_headers: Vec::new(),
            http_status_code: status,
            request_finished: true,
        }
    }
}

/// Takes output that PHP writes, and tells how many bytes were taken.
///
/// Without a request the bytes are taken and dropped; once the request has finished none are taken.
pub fn sapi_ub_write(ctx: Option<&mut RequestContext>, data: Option<&[u8]>) -> (taken: usize)
    ensures
        taken == (match data {
            None => 0,
            Some(bytes) => if ctx matches Some(c) && c.request_finished {
                0
            } else {
                bytes@.len()
            },
        }),
        ctx matches Some(c) ==> *final(c) == (RequestContext {
            output_buffer: final(c).output_buffer,
            ..*c
        }),
        ctx matches Some(c) ==> final(c).captured() == c.captured().written(optional_bytes(data)),
        ctx matches Some(c) ==> final(c).output_buffer@ == (match data {
            Some(bytes) => if c.request_finished {
                c.output_buffer@
            } else {
                c.output_buffer@ + bytes@
            },
            None => c.output_buffer@,
        }),
{
    let bytes = match data {
        Some(bytes) => bytes,
        None => {
            return 0;
        },
    };
    if bytes.len() == 0 {
        return 0;
    }
    match ctx {
        None => bytes.len(),
        Some(c) => {
            if c.request_finished {
                return 0;
            }
            let ghost before = c.output_buffer@;
            c.output_buffer.extend_from_slice(bytes);
            assert(c.output_buffer@ =~= before + bytes@);
            bytes.len()
        },
    }
}

/// The bytes behind a pointer that may be null.
pub open spec fn optional_bytes(bytes: Option<&[u8]>) -> Option<Seq<u8>> {
    match bytes {
        Some(b) => Some(b@),
        None => None,
    }
}

/// Takes one response header that PHP sends.
pub fn sapi_send_header(ctx: Option<&mut RequestContext>, header: Option<&[u8]>)
    ensures
        ctx matches Some(c) ==> *final(c) == (RequestContext {
            response_headers: final(c).response_headers,
            ..*c
        }),
        ctx matches Some(c) ==> final(c).captured() == c.captured().with_header(
            optional_bytes(header),
        ),
        ctx matches Some(c) ==> (match header {
            Some(bytes) => if bytes@.len() > 0 && valid_utf8(bytes@) {
                &&& final(c).response_headers@.len() == c.response_headers@.len() + 1
                &&& final(c).response_headers@.drop_last() == c.response_headers@
                &&& final(c).response_headers@.last()@ == decode_utf8(bytes@)
            } else {
                final(c).response_headers == c.response_headers
            },
            None => final(c).response_headers == c.response_headers,
        }),
{
    if let Some(c) = ctx {
        if let Some(bytes) = header {
            if bytes.len() == 0 {
                return ;
            }
            if let Some(text) = utf8_text(bytes) {
                let ghost before = c.response_headers@;
                c.response_headers.push(text.to_owned());
                assert(headers_view(c.response_headers@) =~= headers_view(before).push(text@));
                assert(c.response_headers@.drop_last() =~= before);
            }
        }
    }
}

/// The status that a response code of PHP stands for: its low 16 bits, and 200 for none.
pub open spec fn status_from(code: i32) -> u16 {
    let low = code as int % 0x10000;
    if low == 0 {
        200
    } else {
        low as u16
    }
}

/// Takes the response code once PHP has settled its headers.
///
/// The answer is always 2, which has PHP hand over the headers one by one; 0 would have it drop
/// all output.
pub fn sapi_send_headers(ctx: Option<&mut RequestContext>, code: Option<i32>) -> (answer: i32)
    ensures
        answer == 2,
        ctx matches Some(c) ==> *final(c) == (RequestContext {
            http_status_code: final(c).http_status_code,
            ..*c
        }),
        ctx matches Some(c) ==> final(c).captured() == c.captured().with_code(code),
        ctx matches Some(c) ==> code is None ==> final(c).http_status_code == c.http_status_code,
        ctx matches Some(c) ==> code == Some(0i32) ==> final(c).http_status_code == 200,
        ctx matches Some(c) ==> (code matches Some(n) ==> 0 < n <= 0xffff
            ==> final(c).http_status_code == n),
{
    if let Some(n) = code {
        if let Some(c) = ctx {
            let low: u16 = n as u16;
            assert(low as int == n as int % 0x10000) by {
                assert(n as u16 == n % 0x10000) by (bit_vector);
            }
            c.http_status_code = if low == 0 {
                200
            } else {
                low
            };
        }
    }
    2
}

/// Whether PHP may still read POST data: it expects some, and has read less than that.
///
/// Both counts are compared as `usize`: on a 64-bit machine a negative count of bytes read is past
/// any length.
pub open spec fn post_due(content_length: i64, read_post_bytes: i64) -> bool {
    content_length > 0 && (read_post_bytes as usize) < (content_length as usize)
}

/// What a read of at most `length` bytes gives of a body of which `offset` bytes have been read.
pub open spec fn post_chunk(body: Seq<u8>, offset: int, length: int) -> Seq<u8> {
    if offset >= body.len() {
        Seq::empty()
    } else if offset + length < body.len() {
        body.subrange(offset, offset + length)
    } else {
        body.skip(offset)
    }
}

/// Gives PHP the next part of the POST body, of at most `length` bytes.
pub fn sapi_read_post(
    ctx: Option<&mut RequestContext>,
    content_length: i64,
    read_post_bytes: i64,
    length: usize,
) -> (chunk: Vec<u8>)
    ensures
        chunk@ == (match ctx {
            Some(c) => if post_due(content_length, read_post_bytes) {
                post_chunk(c.post_body@, c.post_read_offset as int, length as int)
            } else {
                Seq::empty()
            },
            None => Seq::empty(),
        }),
        ctx matches Some(c) ==> *final(c) == (RequestContext {
            post_read_offset: (c.post_read_offset + chunk@.len()) as usize,
            ..*c
        }),
        chunk@.len() <= length,
        ctx matches Some(c) ==> chunk@.len() > 0 ==> {
            &&& c.post_read_offset + chunk@.len() <= c.post_body@.len()
            &&& chunk@ == c.post_body@.subrange(
                c.post_read_offset as int,
                c.post_read_offset + chunk@.len(),
            )
        },
        ctx matches Some(c) ==> post_due(content_length, read_post_bytes) ==> chunk@.len() == (
        if c.post_read_offset >= c.post_body@.len() {
            0
        } else if length < c.post_body@.len() - c.post_read_offset {
            length as int
        } else {
            c.post_body@.len() - c.post_read_offset
        }),
{
    let c = match ctx {
        Some(c) => c,
        None => {
            return Vec::new();
        },
    };
    if content_length <= 0 {
        return Vec::new();
    }
    if read_post_bytes as usize >= content_length as usize {
        return Vec::new();
    }
    let offset: usize = c.post_read_offset;
    let remaining: usize = if c.post_body.len() > offset {
        c.post_body.len() - offset
    } else {
        0
    };
    let to_read: usize = if length < remaining {
        length
    } else {
        remaining
    };
    if to_read == 0 {
        return Vec::new();
    }
    let chunk = slice_to_vec(slice_subrange(c.post_body.as_slice(), offset, offset + to_read));
    assert(chunk@ =~= post_chunk(c.post_body@, offset as int, length as int));
    c.post_read_offset = offset + to_read;
    chunk
}

/// A text as a C string, if it can be one.
pub open spec fn c_text(text: Seq<char>) -> Option<Seq<char>> {
    if holds_nul(text) {
        None
    } else {
        Some(text)
    }
}

fn c_string(text: &str) -> (owned: Option<String>)
    ensures
        optional_text(owned) == c_text(text@),
{
    if has_nul(text) {
        None
    } else {
        Some(text.to_owned())
    }
}

/// The cookies of a request, as a text without NUL.
pub open spec fn cookies(params: Map<Seq<char>, Seq<char>>) -> Option<Seq<char>> {
    if params.dom().contains("HTTP_COOKIE"@) {
        c_text(params["HTTP_COOKIE"@])
    } else {
        None
    }
}

/// Gives PHP the cookies of the request.
pub fn sapi_read_cookies(ctx: Option<&RequestContext>) -> (text: Option<String>)
    ensures
        optional_text(text) == (match ctx {
            Some(c) => cookies(c.params@),
            None => None,
        }),
        ctx is None ==> text is None,
        ctx matches Some(c) ==> (text is Some <==> c.params@.dom().contains("HTTP_COOKIE"@)
            && !c.params@["HTTP_COOKIE"@].contains('\0')),
        ctx matches Some(c) ==> (text matches Some(t) ==> t@ == c.params@["HTTP_COOKIE"@]),
{
    proof {
        if let Some(c) = ctx {
            nul_is_number_zero(c.params@["HTTP_COOKIE"@]);
        }
    }

    match ctx {
        Some(c) => match c.params.get("HTTP_COOKIE") {
            Some(value) => c_string(value),
            None => None,
        },
        None => None,
    }
}

/// Whether a parameter can be a variable: neither its name nor its value holds a NUL.
pub open spec fn registrable(pair: Pair) -> bool {
    !holds_nul(pair.0) && !holds_nul(pair.1)
}

/// The variable that names this server.
pub open spec fn software_pair() -> Pair {
    ("SERVER_SOFTWARE"@, "rust-fpm/0.1.0"@)
}

/// The pairs that are registered for a list of parameters, in order.
pub open spec fn registrations(pairs: Seq<Pair>) -> Seq<Pair> {
    pairs.filter(|pair: Pair| registrable(pair)).push(software_pair())
}

/// The variables that PHP code sees: the parameters that can be variables, and the name of this
/// server over whatever the request said of it.
pub open spec fn server_variables(params: Map<Seq<char>, Seq<char>>) -> Map<Seq<char>, Seq<char>> {
    Map::new(
        |name: Seq<char>| params.dom().contains(name) && registrable((name, params[name])),
        |name: Seq<char>| params[name],
    ).insert(software_pair().0, software_pair().1)
}

/// Lists what to register in `$_SERVER`, in the order of registration.
pub fn sapi_register_server_variables(ctx: Option<&RequestContext>) -> (variables: Vec<
    (String, String),
>)
    ensures
        ctx is None ==> variables@.len() == 0,
        ctx matches Some(c) ==> pairs_view(variables@) == registrations(c.params.pairs()),
        ctx matches Some(c) ==> pairs_map(pairs_view(variables@)) == server_variables(c.params@),
        ctx is Some ==> variables@.len() > 0 && variables@.last().0@ == "SERVER_SOFTWARE"@
            && variables@.last().1@ == "rust-fpm/0.1.0"@,
{
    let mut variables: Vec<(String, String)> = Vec::new();
    let c = match ctx {
        Some(c) => c,
        None => {
            return variables;
        },
    };
    let ghost pairs = c.params.pairs();
    let ghost keep = |pair: Pair| registrable(pair);
    let n: usize = c.params.len();
    let mut i: usize = 0;
    proof {
        assert(pairs.take(0).filter(keep) =~= Seq::<Pair>::empty());
        assert(pairs_view(variables@) =~= Seq::<Pair>::empty());
    }
    while i < n
        invariant
            i <= n,
            n == pairs.len(),
            pairs == c.params.pairs(),
            keep == (|pair: Pair| registrable(pair)),
            pairs_view(variables@) == pairs.take(i as int).filter(keep),
        decreases n - i,
    {
        let (name, value) = c.params.entry(i);
        let ghost before = variables@;
        proof {
            assert(pairs.take(i + 1) =~= pairs.take(i as int).push(pairs[i as int]));
            pairs.take(i as int).lemma_filter_push(pairs[i as int], keep);
        }
        if !has_nul(name) && !has_nul(value) {
            variables.push((name.to_owned(), value.to_owned()));
            assert(pairs_view(variables@) =~= pairs_view(before).push(pairs[i as int]));
        }
        i = i + 1;
    }
    let ghost before = variables@;
    variables.push(("SERVER_SOFTWARE".to_owned(), "rust-fpm/0.1.0".to_owned()));
    proof {
        assert(pairs.take(n as int) =~= pairs);
        assert(pairs_view(variables@) =~= pairs_view(before).push(software_pair()));
        use_type_invariant(&c.params);
        c.params.pairs_are_the_map();
        registered_map(pairs);
    }
    variables
}

/// Registering the variables of a request makes the map that [`server_variables`] describes.
pub proof fn registered_map(pairs: Seq<Pair>)
    requires
        distinct_names(pairs),
    ensures
        pairs_map(registrations(pairs)) == server_variables(pairs_map(pairs)),
{
    let keep = |pair: Pair| registrable(pair);
    let kept = pairs.filter(keep);
    kept_map(pairs);
    assert(registrations(pairs).drop_last() =~= kept);
}

proof fn kept_map(pairs: Seq<Pair>)
    requires
        distinct_names(pairs),
    ensures
        pairs_map(pairs.filter(|pair: Pair| registrable(pair))) == Map::new(
            |name: Seq<char>|
                pairs_map(pairs).dom().contains(name) && registrable(
                    (name, pairs_map(pairs)[name]),
                ),
            |name: Seq<char>| pairs_map(pairs)[name],
        ),
    decreases pairs.len(),
{
    let keep = |pair: Pair| registrable(pair);
    let kept = pairs_map(pairs.filter(keep));
    let wanted = Map::new(
        |name: Seq<char>|
            pairs_map(pairs).dom().contains(name) && registrable((name, pairs_map(pairs)[name])),
        |name: Seq<char>| pairs_map(pairs)[name],
    );
    reveal(Seq::filter);
    if pairs.len() == 0 {
        assert(kept =~= wanted);
    } else {
        let front = pairs.drop_last();
        let last = pairs.last();
        assert(distinct_names(front));
        kept_map(front);
        pairs_map_names(front, last.0);
        assert(!pairs_map(front).dom().contains(last.0)) by {
            if pairs_map(front).dom().contains(last.0) {
                let i = choose|i: int| 0 <= i < front.len() && (#[trigger] front[i]).0 == last.0;
                assert(pairs[i].0 == pairs[pairs.len() - 1].0);
            }
        }
        if keep(last) {
            assert(pairs.filter(keep) == front.filter(keep).push(last));
            assert(pairs.filter(keep).drop_last() =~= front.filter(keep));
        }
        assert(kept =~= wanted);
    }
}

/// The text of a message that PHP logs.
pub fn sapi_log_message(message: Option<&[u8]>) -> (text: Option<String>)
    ensures
        optional_text(text) == (match message {
            Some(bytes) => Some(lossy_utf8(bytes@)),
            None => None,
        }),
        message matches Some(bytes) ==> valid_utf8(bytes@) ==> optional_text(text) == Some(
            decode_utf8(bytes@),
        ),
{
    match message {
        Some(bytes) => Some(lossy_text(bytes)),
        None => None,
    }
}

/// The value of a parameter, or what stands for it where it is not set.
pub open spec fn param_or(
    params: Map<Seq<char>, Seq<char>>,
    name: Seq<char>,
    default: Seq<char>,
) -> Seq<char> {
    if params.dom().contains(name) {
        params[name]
    } else {
        default
    }
}

/// The value of a parameter, or `default` where it is not set.
pub fn get_or<'a>(params: &'a Params, name: &str, default: &'a str) -> (value: &'a str)
    ensures
        value@ == param_or(params@, name@, default@),
        value@ == (if params@.dom().contains(name@) {
            params@[name@]
        } else {
            default@
        }),
{
    match params.get(name) {
        Some(value) => value,
        None => default,
    }
}

/// What to do with the content type of a request.
pub enum ContentType {
    /// Point to a new copy of this text.
    Replace(String),
    /// Leave the pointer as it is.
    Keep,
    /// Make the pointer null.
    Clear,
}

/// What to write into PHP's record of the request before PHP starts on it.
///
/// A text that is absent cannot be a C string; the pointer then stays as it is.
pub struct RequestInfo {
    /// Response code to start from
    pub http_response_code: i32,
    pub request_method: Option<String>,
    pub query_string: Option<String>,
    pub request_uri: Option<String>,
    pub content_type: ContentType,
    pub content_length: i64,
    /// Path of the script
    pub path_translated: Option<String>,
    /// Protocol version: 1000 times the major number, and the minor one
    pub proto_num: i32,
}

/// The length that a request announces for its body: 0 where it gives no number.
pub open spec fn announced_length(params: Map<Seq<char>, Seq<char>>) -> i64 {
    if params.dom().contains("CONTENT_LENGTH"@) {
        match within(signed_number(params["CONTENT_LENGTH"@]), i64::MIN as int, i64::MAX as int) {
            Some(n) => n as i64,
            None => 0,
        }
    } else {
        0
    }
}

/// Whether `field` is what the parameters say of the content type.
pub open spec fn is_content_type(params: Map<Seq<char>, Seq<char>>, field: ContentType) -> bool {
    if params.dom().contains("CONTENT_TYPE"@) {
        match c_text(params["CONTENT_TYPE"@]) {
            Some(text) => field matches ContentType::Replace(t) && t@ == text,
            None => field is Keep,
        }
    } else {
        field is Clear
    }
}

/// Whether `info` is what the parameters say of the request.
pub open spec fn describes(info: RequestInfo, params: Map<Seq<char>, Seq<char>>) -> bool {
    &&& info.http_response_code == 200
    &&& optional_text(info.request_method) == c_text(param_or(params, "REQUEST_METHOD"@, "GET"@))
    &&& optional_text(info.query_string) == c_text(param_or(params, "QUERY_STRING"@, ""@))
    &&& optional_text(info.request_uri) == c_text(param_or(params, "REQUEST_URI"@, "/"@))
    &&& is_content_type(params, info.content_type)
    &&& info.content_length == announced_length(params)
    &&& optional_text(info.path_translated) == c_text(param_or(params, "SCRIPT_FILENAME"@, ""@))
    &&& info.proto_num == 1001
}

/// Tells what to write into PHP's record of the request.
pub fn init_request_info(ctx: &RequestContext) -> (info: RequestInfo)
    ensures
        describes(info, ctx.params@),
{
    let params = &ctx.params;
    let content_type = match params.get("CONTENT_TYPE") {
        Some(value) => match c_string(value) {
            Some(text) => ContentType::Replace(text),
            None => ContentType::Keep,
        },
        None => ContentType::Clear,
    };
    let content_length: i64 = match params.get("CONTENT_LENGTH") {
        Some(value) => match parse_i64(value) {
            Some(n) => n,
            None => 0,
        },
        None => 0,
    };
    RequestInfo {
        http_response_code: 200,
        request_method: c_string(get_or(params, "REQUEST_METHOD", "GET")),
        query_string: c_string(get_or(params, "QUERY_STRING", "")),
        request_uri: c_string(get_or(params, "REQUEST_URI", "/")),
        content_type,
        content_length,
        path_translated: c_string(get_or(params, "SCRIPT_FILENAME", "")),
        proto_num: 1001,
    }
}

/// Which strings of PHP's record of the request are there: the pointer is not null.
#[derive(Clone, Copy, Debug, PartialEq, Eq, Structural)]
pub struct InfoStrings {
    pub request_method: bool,
    pub query_string: bool,
    pub request_uri: bool,
    pub content_type: bool,
    pub cookie_data: bool,
}

/// No string at all.
pub open spec fn no_strings() -> InfoStrings {
    InfoStrings {
        request_method: false,
        query_string: false,
        request_uri: false,
        content_type: false,
        cookie_data: false,
    }
}

/// What to do when PHP ends a request.
#[derive(Clone, Copy, Debug, PartialEq, Eq, Structural)]
pub struct Deactivation {
    /// The strings to free
    pub release: InfoStrings,
    /// Whether to take the request context off PHP's globals
    pub detach: bool,
}

/// Ends a request: marks it as finished, and tells which strings to free.
///
/// Nothing happens before PHP has started, or without a request.
pub fn sapi_deactivate(
    sapi_started: bool,
    ctx: Option<&mut RequestContext>,
    present: InfoStrings,
) -> (deactivation: Deactivation)
    ensures
        deactivation == (if sapi_started && ctx is Some {
            Deactivation { release: present, detach: true }
        } else {
            Deactivation { release: no_strings(), detach: false }
        }),
        ctx matches Some(c) ==> *final(c) == (RequestContext {
            request_finished: final(c).request_finished,
            ..*c
        }),
        ctx matches Some(c) ==> final(c).captured() == (if sapi_started {
            c.captured().ended()
        } else {
            c.captured()
        }),
        ctx matches Some(c) ==> final(c).request_finished == (sapi_started || c.request_finished),
        deactivation.detach == (sapi_started && ctx is Some),
        deactivation.detach ==> deactivation.release == present,
        !deactivation.detach ==> deactivation.release == (InfoStrings {
            request_method: false,
            query_string: false,
            request_uri: false,
            content_type: false,
            cookie_data: false,
        }),
{
    if sapi_started {
        if let Some(c) = ctx {
            c.request_finished = true;
            return Deactivation { release: present, detach: true };
        }
    }
    Deactivation {
        release: InfoStrings {
            request_method: false,
            query_string: false,
            request_uri: false,
            content_type: false,
            cookie_data: false,
        },
        detach: false,
    }
}

/// How this server presents itself to PHP.
pub struct SapiSettings {
    /// Name by which PHP code knows the server interface
    pub name: &'static str,
    pub pretty_name: &'static str,
    /// Path of the `php.ini` to use
    pub php_ini_path: Option<String>,
    /// Settings that hold over those of `php.ini`, one to a line
    pub ini_entries: &'static str,
}

/// The settings with which PHP is started.
pub fn sapi_settings(php_ini_path: Option<&str>) -> (settings: SapiSettings)
    ensures
        settings.name@ == "cgi-fcgi"@,
        settings.pretty_name@ == "Rust FPM"@,
        optional_text(settings.php_ini_path) == (match php_ini_path {
            Some(path) => Some(path@),
            None => None,
        }),
        settings.ini_entries@
            == "html_errors=0\nimplicit_flush=0\noutput_buffering=0\nzend.max_allowed_stack_size=-1\n"@,
{
    SapiSettings {
        name: "cgi-fcgi",
        pretty_name: "Rust FPM",
        php_ini_path: match php_ini_path {
            Some(path) => Some(path.to_owned()),
            None => None,
        },
        ini_entries: "html_errors=0\nimplicit_flush=0\noutput_buffering=0\nzend.max_allowed_stack_size=-1\n",
    }
}

/// One call that PHP makes while it works on a request.
pub enum Callback {
    Write(Seq<u8>),
    Header(Seq<u8>),
    Headers(i32),
    End,
}

/// What a request has produced after one more call.
pub open spec fn after(captured: Captured, call: Callback) -> Captured {
    match call {
        Callback::Write(bytes) => captured.written(Some(bytes)),
        Callback::Header(bytes) => captured.with_header(Some(bytes)),
        Callback::Headers(code) => captured.with_code(Some(code)),
        Callback::End => captured.ended(),
    }
}

/// What a request has produced after a series of calls.
pub open spec fn after_all(captured: Captured, calls: Seq<Callback>) -> Captured
    decreases calls.len(),
{
    if calls.len() == 0 {
        captured
    } else {
        after_all(after(captured, calls[0]), calls.drop_first())
    }
}

/// All bytes that a series of calls writes, up to the first call that ends the request.
pub open spec fn written_by(calls: Seq<Callback>) -> Seq<u8>
    decreases calls.len(),
{
    if calls.len() == 0 {
        Seq::empty()
    } else {
        match calls[0] {
            Callback::Write(bytes) => bytes + written_by(calls.drop_first()),
            Callback::End => Seq::empty(),
            _ => written_by(calls.drop_first()),
        }
    }
}

/// All headers that a series of calls sends, but for empty ones and those that are not UTF-8.
pub open spec fn headers_sent_by(calls: Seq<Callback>) -> Seq<Seq<char>>
    decreases calls.len(),
{
    if calls.len() == 0 {
        Seq::empty()
    } else {
        match calls[0] {
            Callback::Header(bytes) => if bytes.len() > 0 && valid_utf8(bytes) {
                seq![decode_utf8(bytes)] + headers_sent_by(calls.drop_first())
            } else {
                headers_sent_by(calls.drop_first())
            },
            _ => headers_sent_by(calls.drop_first()),
        }
    }
}

/// Once a request has finished, its output stays as it is.
pub proof fn finished_output_stays(captured: Captured, calls: Seq<Callback>)
    requires
        captured.finished,
    ensures
        after_all(captured, calls).output == captured.output,
        after_all(captured, calls).finished,
    decreases calls.len(),
{
    if calls.len() > 0 {
        finished_output_stays(after(captured, calls[0]), calls.drop_first());
    }
}

/// All that PHP writes until it ends the request is captured, in order, and nothing else.
pub proof fn output_is_what_was_written(captured: Captured, calls: Seq<Callback>)
    requires
        !captured.finished,
    ensures
        after_all(captured, calls).output == captured.output + written_by(calls),
    decreases calls.len(),
{
    if calls.len() == 0 {
        assert(captured.output + written_by(calls) =~= captured.output);
    } else {
        let next = after(captured, calls[0]);
        let rest = calls.drop_first();
        match calls[0] {
            Callback::Write(bytes) => {
                output_is_what_was_written(next, rest);
                assert(captured.output + (bytes + written_by(rest)) =~= captured.output + bytes
                    + written_by(rest));
            },
            Callback::End => {
                finished_output_stays(next, rest);
                assert(captured.output + written_by(calls) =~= captured.output);
            },
            _ => {
                output_is_what_was_written(next, rest);
            },
        }
    }
}

/// All headers that PHP sends are captured, in order, but for empty ones and those that are not
/// UTF-8.
pub proof fn headers_are_what_was_sent(captured: Captured, calls: Seq<Callback>)
    ensures
        after_all(captured, calls).headers == captured.headers + headers_sent_by(calls),
    decreases calls.len(),
{
    if calls.len() == 0 {
        assert(captured.headers + headers_sent_by(calls) =~= captured.headers);
    } else {
        let next = after(captured, calls[0]);
        let rest = calls.drop_first();
        headers_are_what_was_sent(next, rest);
        match calls[0] {
            Callback::Header(bytes) => {
                if bytes.len() > 0 && valid_utf8(bytes) {
                    let text = decode_utf8(bytes);
                    assert(captured.headers + (seq![text] + headers_sent_by(rest))
                        =~= captured.headers.push(text) + headers_sent_by(rest));
                }
            },
            _ => {},
        }
    }
}

/// Without a response code the status stays as it is.
pub proof fn no_code_keeps_status(captured: Captured, calls: Seq<Callback>)
    requires
        forall|j: int| 0 <= j < calls.len() ==> (#[trigger] calls[j]) !is Headers,
    ensures
        after_all(captured, calls).status == captured.status,
    decreases calls.len(),
{
    if calls.len() > 0 {
        assert(calls[0] !is Headers);
        let rest = calls.drop_first();
        assert forall|j: int| 0 <= j < rest.len() implies (#[trigger] rest[j]) !is Headers by {
            assert(rest[j] == calls[j + 1]);
        }
        no_code_keeps_status(after(captured, calls[0]), rest);
    }
}

/// The last response code that PHP settles on is the one that counts.
pub proof fn last_code_holds(captured: Captured, calls: Seq<Callback>, i: int)
    requires
        0 <= i < calls.len(),
        calls[i] is Headers,
        forall|j: int| i < j < calls.len() ==> (#[trigger] calls[j]) !is Headers,
    ensures
        after_all(captured, calls).status == status_from(calls[i]->Headers_0),
    decreases calls.len(),
{
    let next = after(captured, calls[0]);
    let rest = calls.drop_first();
    assert forall|j: int| i - 1 < j && 0 <= j < rest.len() implies (#[trigger] rest[j]) !is Headers by {
        assert(rest[j] == calls[j + 1]);
    }
    if i == 0 {
        no_code_keeps_status(next, rest);
    } else {
        assert(rest[i - 1] == calls[i]);
        last_code_holds(next, rest, i - 1);
    }
}

/// The bytes that PHP gets when it reads a POST body in portions of at most the given lengths,
/// counting what it got.
pub open spec fn post_reads(
    body: Seq<u8>,
    content_length: i64,
    offset: int,
    lengths: Seq<nat>,
) -> Seq<u8>
    decreases lengths.len(),
{
    if lengths.len() == 0 {
        Seq::empty()
    } else {
        let chunk = if post_due(content_length, offset as i64) {
            post_chunk(body, offset, lengths[0] as int)
        } else {
            Seq::empty()
        };
        chunk + post_reads(body, content_length, offset + chunk.len(), lengths.drop_first())
    }
}

/// The sum of some lengths.
pub open spec fn total(lengths: Seq<nat>) -> nat
    decreases lengths.len(),
{
    if lengths.len() == 0 {
        0
    } else {
        lengths[0] + total(lengths.drop_first())
    }
}

/// Where the counts fit in a `usize`, POST data is due exactly while less than the announced
/// length has been read.
pub proof fn post_due_counts(content_length: i64, read: i64)
    requires
        0 <= content_length <= usize::MAX,
        0 <= read <= usize::MAX,
    ensures
        post_due(content_length, read) <==> read < content_length,
{
}

/// Whatever portions PHP reads in, it gets the POST body from its beginning on, without gap or
/// repetition.
pub proof fn post_reads_follow_the_body(
    body: Seq<u8>,
    content_length: i64,
    offset: int,
    lengths: Seq<nat>,
)
    requires
        0 <= offset <= body.len(),
    ensures
        post_reads(body, content_length, offset, lengths).len() <= body.len() - offset,
        post_reads(body, content_length, offset, lengths) == body.subrange(
            offset,
            offset + post_reads(body, content_length, offset, lengths).len(),
        ),
    decreases lengths.len(),
{
    if lengths.len() == 0 {
        assert(body.subrange(offset, offset) =~= Seq::<u8>::empty());
    } else {
        let chunk = if post_due(content_length, offset as i64) {
            post_chunk(body, offset, lengths[0] as int)
        } else {
            Seq::empty()
        };
        let next = offset + chunk.len() as int;
        assert(chunk =~= body.subrange(offset, next));
        let rest = post_reads(body, content_length, next, lengths.drop_first());
        post_reads_follow_the_body(body, content_length, next, lengths.drop_first());
        assert(chunk + rest =~= body.subrange(offset, next + rest.len()));
    }
}

/// A body of no more than the announced length is read whole: PHP gets as many bytes as it asks
/// for, up to the end of the body.
pub proof fn post_reads_reach_the_end(
    body: Seq<u8>,
    content_length: i64,
    offset: int,
    lengths: Seq<nat>,
)
    requires
        0 <= offset <= body.len() <= content_length <= usize::MAX,
    ensures
        post_reads(body, content_length, offset, lengths) == post_chunk(
            body,
            offset,
            total(lengths) as int,
        ),
    decreases lengths.len(),
{
    if lengths.len() == 0 {
        assert(post_chunk(body, offset, 0) =~= Seq::<u8>::empty());
    } else {
        post_due_counts(content_length, offset as i64);
        let chunk = if post_due(content_length, offset as i64) {
            post_chunk(body, offset, lengths[0] as int)
        } else {
            Seq::empty()
        };
        post_reads_reach_the_end(body, content_length, offset + chunk.len(), lengths.drop_first());
        assert(chunk + post_chunk(
            body,
            offset + chunk.len(),
            total(lengths.drop_first()) as int,
        ) =~= post_chunk(body, offset, total(lengths) as int));
    }
}

/// A body that comes with its true length is read whole, in whatever portions, once PHP has asked
/// for that many bytes.
pub proof fn announced_body_is_read_whole(
    params: Map<Seq<char>, Seq<char>>,
    body: Seq<u8>,
    lengths: Seq<nat>,
)
    requires
        params.dom().contains("CONTENT_LENGTH"@),
        params["CONTENT_LENGTH"@] == decimal(body.len()),
        body.len() <= i64::MAX,
        body.len() <= usize::MAX,
        body.len() <= total(lengths),
    ensures
        post_reads(body, announced_length(params), 0, lengths) == body,
{
    decimal_reads_back(body.len());
    post_reads_reach_the_end(body, announced_length(params), 0, lengths);
    assert(post_chunk(body, 0, total(lengths) as int) =~= body);
}

/// Which strings are there once PHP's record of the request has been written, and PHP has asked
/// for the cookies.
pub open spec fn strings_after(
    before: InfoStrings,
    info: RequestInfo,
    params: Map<Seq<char>, Seq<char>>,
) -> InfoStrings {
    InfoStrings {
        request_method: info.request_method is Some || before.request_method,
        query_string: info.query_string is Some || before.query_string,
        request_uri: info.request_uri is Some || before.request_uri,
        content_type: match info.content_type {
            ContentType::Replace(_) => true,
            ContentType::Keep => before.content_type,
            ContentType::Clear => false,
        },
        cookie_data: cookies(params) is Some,
    }
}

/// Which strings were newly made for a request.
pub open spec fn strings_made(
    info: RequestInfo,
    params: Map<Seq<char>, Seq<char>>,
) -> InfoStrings {
    InfoStrings {
        request_method: info.request_method is Some,
        query_string: info.query_string is Some,
        request_uri: info.request_uri is Some,
        content_type: info.content_type is Replace,
        cookie_data: cookies(params) is Some,
    }
}

/// Whether every text that describes the request can be a C string.
pub open spec fn texts_are_clean(params: Map<Seq<char>, Seq<char>>) -> bool {
    &&& !holds_nul(param_or(params, "REQUEST_METHOD"@, "GET"@))
    &&& !holds_nul(param_or(params, "QUERY_STRING"@, ""@))
    &&& !holds_nul(param_or(params, "REQUEST_URI"@, "/"@))
    &&& !holds_nul(param_or(params, "CONTENT_TYPE"@, ""@))
}

/// The strings to free when PHP ends a request are those that were made for it, whatever pointers
/// an earlier request left behind.
pub proof fn strings_made_are_freed(
    before: InfoStrings,
    info: RequestInfo,
    params: Map<Seq<char>, Seq<char>>,
)
    requires
        describes(info, params),
        texts_are_clean(params) || before == no_strings(),
    ensures
        strings_after(before, info, params) == strings_made(info, params),
{
}

/// What a request has produced is what stands in its context.
pub proof fn captured_is_the_context(ctx: RequestContext)
    ensures
        ctx.captured().output == ctx.output_buffer@,
        ctx.captured().headers.len() == ctx.response_headers@.len(),
        forall|i: int|
            0 <= i < ctx.response_headers@.len() ==> #[trigger] ctx.captured().headers[i]
                == ctx.response_headers@[i]@,
        ctx.captured().status == ctx.http_status_code,
        ctx.captured().finished == ctx.request_finished,
{
}

/// Each call of PHP changes one thing alone: output is appended until the request has finished, a
/// header is appended as PHP sent it, a code becomes the status, and the end is noted.
pub proof fn each_call_changes_one_thing(captured: Captured, bytes: Seq<u8>, code: i32)
    ensures
        ({
            let written = captured.written(Some(bytes));
            &&& written.output == (if captured.finished {
                captured.output
            } else {
                captured.output + bytes
            })
            &&& written.headers == captured.headers
            &&& written.status == captured.status
            &&& written.finished == captured.finished
        }),
        ({
            let sent = captured.with_header(Some(bytes));
            &&& sent.headers == (if bytes.len() > 0 && valid_utf8(bytes) {
                captured.headers.push(decode_utf8(bytes))
            } else {
                captured.headers
            })
            &&& sent.output == captured.output
            &&& sent.status == captured.status
            &&& sent.finished == captured.finished
        }),
        ({
            let coded = captured.with_code(Some(code));
            &&& code == 0 ==> coded.status == 200
            &&& 0 < code <= 0xffff ==> coded.status == code
            &&& coded.output == captured.output
            &&& coded.headers == captured.headers
            &&& coded.finished == captured.finished
        }),
        ({
            let ended = captured.ended();
            &&& ended.finished
            &&& ended.output == captured.output
            &&& ended.headers == captured.headers
            &&& ended.status == captured.status
        }),
        captured.written(None) == captured,
        captured.with_header(None) == captured,
        captured.with_code(None) == captured,
{
}

/// The status is PHP's code but for multiples of 65536, and 200 where nothing is left of it.
pub proof fn status_is_the_code(code: i32)
    ensures
        0 < code <= 0xffff ==> status_from(code) == code,
        code == 0 ==> status_from(code) == 200,
        code as int % 0x10000 == 0 ==> status_from(code) == 200,
        code as int % 0x10000 != 0 ==> (code - status_from(code)) % 0x10000 == 0,
{
}

/// A read gives as many bytes as were asked for or as are left, whichever is less, and they are the
/// bytes of the body from where the last read stopped.
pub proof fn read_gives_what_was_asked_for(body: Seq<u8>, offset: int, length: int)
    requires
        0 <= offset,
        0 <= length,
    ensures
        post_chunk(body, offset, length).len() <= length,
        offset >= body.len() ==> post_chunk(body, offset, length).len() == 0,
        offset < body.len() ==> post_chunk(body, offset, length).len() == (if length < body.len()
            - offset {
            length
        } else {
            body.len() - offset
        }),
        forall|i: int|
            0 <= i < post_chunk(body, offset, length).len() ==> #[trigger] post_chunk(
                body,
                offset,
                length,
            )[i] == body[offset + i],
{
}

/// Without an announced body there is nothing to read.
pub proof fn nothing_announced_nothing_due(content_length: i64, read: i64)
    requires
        content_length <= 0,
    ensures
        !post_due(content_length, read),
{
}

/// A text is a C string as it is, unless it holds a NUL.
pub proof fn c_strings(text: Seq<char>)
    ensures
        !text.contains('\0') ==> c_text(text) == Some(text),
        text.contains('\0') ==> c_text(text) is None,
{
    nul_is_number_zero(text);
}

/// A parameter that is set has its value, and any other what stands for it.
pub proof fn set_parameters_hold(
    params: Map<Seq<char>, Seq<char>>,
    name: Seq<char>,
    default: Seq<char>,
)
    ensures
        params.dom().contains(name) ==> param_or(params, name, default) == params[name],
        !params.dom().contains(name) ==> param_or(params, name, default) == default,
{
}

/// `$_SERVER` holds each parameter that has no NUL in its name or value, with that value, and as
/// the name of the server that of this one; nothing else.
pub proof fn server_variables_are_the_parameters(
    params: Map<Seq<char>, Seq<char>>,
    name: Seq<char>,
)
    ensures
        server_variables(params).dom().contains("SERVER_SOFTWARE"@),
        server_variables(params)["SERVER_SOFTWARE"@] == "rust-fpm/0.1.0"@,
        name != "SERVER_SOFTWARE"@ ==> {
            &&& server_variables(params).dom().contains(name) <==> params.dom().contains(name)
                && !name.contains('\0') && !params[name].contains('\0')
            &&& server_variables(params).dom().contains(name) ==> server_variables(params)[name]
                == params[name]
        },
{
    nul_is_number_zero(name);
    nul_is_number_zero(params[name]);
}

/// What is registered is the parameters without a NUL, and behind them the name of the server.
pub proof fn registered_are_the_parameters(pairs: Seq<Pair>, i: int)
    requires
        0 <= i < pairs.len(),
    ensures
        registrations(pairs).last() == ("SERVER_SOFTWARE"@, "rust-fpm/0.1.0"@),
        registrations(pairs).drop_last().contains(pairs[i]) <==> !pairs[i].0.contains('\0')
            && !pairs[i].1.contains('\0'),
        forall|pair: Pair| #[trigger]
            registrations(pairs).drop_last().contains(pair) ==> pairs.contains(pair),
{
    let keep = |pair: Pair| registrable(pair);
    let kept = pairs.filter(keep);
    assert(registrations(pairs).drop_last() =~= kept);
    nul_is_number_zero(pairs[i].0);
    nul_is_number_zero(pairs[i].1);
    assert forall|pair: Pair| #[trigger] kept.contains(pair) implies pairs.contains(pair) by {
        kept_pairs(pairs, pair);
    }
    kept_pairs(pairs, pairs[i]);
    assert(pairs.contains(pairs[i]));
}

proof fn kept_pairs(pairs: Seq<Pair>, pair: Pair)
    ensures
        pairs.filter(|pair: Pair| registrable(pair)).contains(pair) <==> pairs.contains(pair)
            && registrable(pair),
    decreases pairs.len(),
{
    let keep = |pair: Pair| registrable(pair);
    reveal(Seq::filter);
    if pairs.len() > 0 {
        let front = pairs.drop_last();
        let kept = front.filter(keep);
        kept_pairs(front, pair);
        if pairs.contains(pair) && pair != pairs.last() {
            let i = choose|i: int| 0 <= i < pairs.len() && pairs[i] == pair;
            assert(front[i] == pair);
        }
        if front.contains(pair) {
            let i = choose|i: int| 0 <= i < front.len() && front[i] == pair;
            assert(pairs[i] == pair);
        }
        if keep(pairs.last()) {
            let all = kept.push(pairs.last());
            assert(pairs.filter(keep) == all);
            if kept.contains(pair) {
                let i = choose|i: int| 0 <= i < kept.len() && kept[i] == pair;
                assert(all[i] == pair);
            }
            if all.contains(pair) && pair != pairs.last() {
                let i = choose|i: int| 0 <= i < all.len() && all[i] == pair;
                assert(kept[i] == pair);
            }
            assert(all[kept.len() as int] == pairs.last());
        }
        assert(pairs[pairs.len() - 1] == pairs.last());
    }
}

/// The announced length is the number that the request gives, below zero too, and 0 where it gives
/// none.
pub proof fn announced_length_is_the_number(
    params: Map<Seq<char>, Seq<char>>,
    n: nat,
    i: int,
)
    requires
        n <= i64::MAX,
    ensures
        !params.dom().contains("CONTENT_LENGTH"@) ==> announced_length(params) == 0,
        announced_length(params.insert("CONTENT_LENGTH"@, decimal(n))) == n,
        announced_length(params.insert("CONTENT_LENGTH"@, seq!['-'] + decimal(n))) == -(n as int),
        ({
            let text = params["CONTENT_LENGTH"@];
            params.dom().contains("CONTENT_LENGTH"@) && 0 <= i < text.len() && ((text[i] as int)
                < 48 || text[i] as int > 57) && (i > 0 || text[i] != '+' && text[i] != '-')
        }) ==> announced_length(params) == 0,
{
    decimal_reads_back(n);
    let minus = seq!['-'] + decimal(n);
    assert(minus.skip(1) =~= decimal(n));
    decimal_is_digits(n);
    assert(is_digit(decimal(n)[0], 10));
    signed_numbers(minus);
    let text = params["CONTENT_LENGTH"@];
    if 0 <= i < text.len() && ((text[i] as int) < 48 || text[i] as int > 57) && (i > 0 || text[i]
        != '+' && text[i] != '-') {
        signed_numbers(text);
        other_texts_are_no_numbers(text, i, 10);
        if text[0] == '-' && text.len() > 1 && text[1] != '+' {
            assert(text.skip(1)[i - 1] == text[i]);
            other_texts_are_no_numbers(text.skip(1), i - 1, 10);
        }
    }
}

/// What PHP is told of a request is what its parameters say.
///
/// A text without a NUL is handed on as it is, with `GET`, no query, `/` and no script where the
/// request says nothing. One with a NUL is not handed on.
pub proof fn description_is_of_the_parameters(
    info: RequestInfo,
    params: Map<Seq<char>, Seq<char>>,
)
    requires
        describes(info, params),
    ensures
        info.http_response_code == 200,
        info.proto_num == 1001,
        ({
            let text = if params.dom().contains("REQUEST_METHOD"@) {
                params["REQUEST_METHOD"@]
            } else {
                "GET"@
            };
            &&& info.request_method is Some <==> !text.contains('\0')
            &&& info.request_method matches Some(t) ==> t@ == text
        }),
        ({
            let text = if params.dom().contains("QUERY_STRING"@) {
                params["QUERY_STRING"@]
            } else {
                ""@
            };
            &&& info.query_string is Some <==> !text.contains('\0')
            &&& info.query_string matches Some(t) ==> t@ == text
        }),
        ({
            let text = if params.dom().contains("REQUEST_URI"@) {
                params["REQUEST_URI"@]
            } else {
                "/"@
            };
            &&& info.request_uri is Some <==> !text.contains('\0')
            &&& info.request_uri matches Some(t) ==> t@ == text
        }),
        ({
            let text = if params.dom().contains("SCRIPT_FILENAME"@) {
                params["SCRIPT_FILENAME"@]
            } else {
                ""@
            };
            &&& info.path_translated is Some <==> !text.contains('\0')
            &&& info.path_translated matches Some(t) ==> t@ == text
        }),
        info.content_type is Clear <==> !params.dom().contains("CONTENT_TYPE"@),
        params.dom().contains("CONTENT_TYPE"@) ==> (info.content_type is Keep
            <==> params["CONTENT_TYPE"@].contains('\0')),
        info.content_type matches ContentType::Replace(t) ==> t@ == params["CONTENT_TYPE"@],
        info.content_length == announced_length(params),
{
    nul_is_number_zero(param_or(params, "REQUEST_METHOD"@, "GET"@));
    nul_is_number_zero(param_or(params, "QUERY_STRING"@, ""@));
    nul_is_number_zero(param_or(params, "REQUEST_URI"@, "/"@));
    nul_is_number_zero(param_or(params, "SCRIPT_FILENAME"@, ""@));
    nul_is_number_zero(params["CONTENT_TYPE"@]);
}

/// A row of digits announces as many bytes as its value, behind a `+` too; behind a `-` the length
/// is below zero. Where the number does not fit, and for a sign alone, the length is 0.
pub proof fn announced_length_is_the_digits(params: Map<Seq<char>, Seq<char>>, row: Seq<char>)
    requires
        row.len() > 0,
        forall|i: int| 0 <= i < row.len() ==> 48 <= (#[trigger] row[i]) as int <= 57,
    ensures
        announced_length(params.insert("CONTENT_LENGTH"@, row)) == (if digits_value(row, 10)
            <= i64::MAX {
            digits_value(row, 10)
        } else {
            0
        }),
        announced_length(params.insert("CONTENT_LENGTH"@, seq!['+'] + row)) == (if digits_value(
            row,
            10,
        ) <= i64::MAX {
            digits_value(row, 10)
        } else {
            0
        }),
        announced_length(params.insert("CONTENT_LENGTH"@, seq!['-'] + row)) == (if -digits_value(
            row,
            10,
        ) >= i64::MIN {
            -digits_value(row, 10)
        } else {
            0
        }),
        announced_length(params.insert("CONTENT_LENGTH"@, Seq::empty())) == 0,
        announced_length(params.insert("CONTENT_LENGTH"@, seq!['+'])) == 0,
        announced_length(params.insert("CONTENT_LENGTH"@, seq!['-'])) == 0,
{
    signed_rows_of_digits(row);
}

} // verus!
