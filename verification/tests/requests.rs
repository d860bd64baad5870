use rust_fpm::fastcgi::{begin_request, finish_request, format_response, Step};
use rust_fpm::params::Params;
use rust_fpm::php_sapi::{
    init_request_info, sapi_deactivate, sapi_log_message, sapi_read_cookies, sapi_read_post,
    sapi_register_server_variables, sapi_send_header, sapi_send_headers, sapi_settings,
    sapi_ub_write, ContentType, Deactivation, InfoStrings, RequestContext,
};
use rust_fpm::request::extract_params;

fn params(list: &[(&str, &str)]) -> Params {
    let mut params = Params::new();
    for (name, value) in list {
        params.insert(name.to_string(), value.to_string());
    }
    params
}

fn context(list: &[(&str, &str)], body: &[u8]) -> RequestContext {
    RequestContext::new(params(list), body.to_vec())
}

fn fields(list: &[(&str, Option<&str>)]) -> Vec<(String, Option<String>)> {
    list.iter().map(|(name, value)| (name.to_string(), value.map(|v| v.to_string()))).collect()
}

fn text(bytes: &[u8]) -> String {
    String::from_utf8(bytes.to_vec()).unwrap()
}

#[test]
fn received_parameters_get_upper_case_names() {
    let params = extract_params(
        Some(fields(&[
            ("request_method", Some("POST")),
            ("script_filename", Some("/var/www/index.php")),
            ("http_x_odd", None),
        ])),
        1700000000,
        "1700000000.250000",
    );
    assert_eq!(params.get("REQUEST_METHOD"), Some("POST"));
    assert_eq!(params.get("SCRIPT_FILENAME"), Some("/var/www/index.php"));
    assert_eq!(params.get("HTTP_X_ODD"), Some(""));
    assert_eq!(params.get("request_method"), None);
    assert_eq!(params.get("SERVER_PROTOCOL"), Some("HTTP/1.1"));
    assert_eq!(params.get("GATEWAY_INTERFACE"), Some("CGI/1.1"));
    assert_eq!(params.get("REQUEST_TIME"), Some("1700000000"));
    assert_eq!(params.get("REQUEST_TIME_FLOAT"), Some("1700000000.250000"));
    assert_eq!(params.len(), 7);
}

#[test]
fn defaults_without_parameters() {
    let params = extract_params(None, 0, "0.000000");
    assert_eq!(params.len(), 5);
    assert_eq!(params.get("REQUEST_METHOD"), Some("GET"));
    assert_eq!(params.get("REQUEST_TIME"), Some("0"));
}

#[test]
fn received_values_are_not_replaced() {
    let params = extract_params(
        Some(fields(&[
            ("server_protocol", Some("HTTP/2.0")),
            ("gateway_interface", Some("CGI/1.0")),
            ("request_time", Some("5")),
            ("request_time_float", Some("5.5")),
            ("request_method", None),
        ])),
        9,
        "9.000000",
    );
    assert_eq!(params.get("SERVER_PROTOCOL"), Some("HTTP/2.0"));
    assert_eq!(params.get("GATEWAY_INTERFACE"), Some("CGI/1.0"));
    assert_eq!(params.get("REQUEST_TIME"), Some("5"));
    assert_eq!(params.get("REQUEST_TIME_FLOAT"), Some("5.5"));
    assert_eq!(params.get("REQUEST_METHOD"), Some(""));
    assert_eq!(params.len(), 5);
}

#[test]
fn new_context() {
    let ctx = context(&[("A", "1")], b"body");
    assert_eq!(ctx.params.get("A"), Some("1"));
    assert_eq!(ctx.post_body, b"body");
    assert_eq!(ctx.post_read_offset, 0);
    assert!(ctx.output_buffer.is_empty());
    assert!(ctx.response_headers.is_empty());
    assert_eq!(ctx.http_status_code, 200);
    assert!(!ctx.request_finished);
}

#[test]
fn error_context() {
    let ctx = RequestContext::error_response(503, "Try later \u{2014} busy");
    assert_eq!(ctx.params.len(), 0);
    assert!(ctx.post_body.is_empty());
    assert_eq!(ctx.output_buffer, "Try later \u{2014} busy".as_bytes());
    assert!(ctx.response_headers.is_empty());
    assert_eq!(ctx.http_status_code, 503);
    assert!(ctx.request_finished);
}

#[test]
fn output_is_captured_until_the_end() {
    let mut ctx = context(&[], b"");
    assert_eq!(sapi_ub_write(Some(&mut ctx), Some(b"Hello, ")), 7);
    assert_eq!(sapi_ub_write(Some(&mut ctx), Some(b"")), 0);
    assert_eq!(sapi_ub_write(Some(&mut ctx), None), 0);
    assert_eq!(sapi_ub_write(Some(&mut ctx), Some(b"world")), 5);
    assert_eq!(ctx.output_buffer, b"Hello, world");
    assert_eq!(sapi_ub_write(None, Some(b"nobody")), 6);
    ctx.request_finished = true;
    assert_eq!(sapi_ub_write(Some(&mut ctx), Some(b"late")), 0);
    assert_eq!(ctx.output_buffer, b"Hello, world");
}

#[test]
fn headers_are_captured() {
    let mut ctx = context(&[], b"");
    sapi_send_header(Some(&mut ctx), Some(b"X-One: 1"));
    sapi_send_header(Some(&mut ctx), Some(b""));
    sapi_send_header(Some(&mut ctx), None);
    sapi_send_header(Some(&mut ctx), Some(&[0x58, 0x3a, 0xff, 0xfe]));
    sapi_send_header(Some(&mut ctx), Some("X-Two: \u{e9}".as_bytes()));
    sapi_send_header(None, Some(b"X-Three: 3"));
    assert_eq!(ctx.response_headers, vec!["X-One: 1".to_string(), "X-Two: \u{e9}".to_string()]);
}

#[test]
fn status_codes() {
    for (code, status) in [(200, 200), (404, 404), (0, 200), (65536, 200), (65537, 1), (-1, 65535), (-65536, 200)] {
        let mut ctx = context(&[], b"");
        ctx.http_status_code = 418;
        assert_eq!(sapi_send_headers(Some(&mut ctx), Some(code)), 2);
        assert_eq!(ctx.http_status_code, status);
    }
    let mut ctx = context(&[], b"");
    ctx.http_status_code = 418;
    assert_eq!(sapi_send_headers(Some(&mut ctx), None), 2);
    assert_eq!(ctx.http_status_code, 418);
    assert_eq!(sapi_send_headers(None, Some(500)), 2);
}

#[test]
fn post_body_in_portions() {
    let mut ctx = context(&[], b"name=value&x=1");
    let mut read: Vec<u8> = Vec::new();
    loop {
        let chunk = sapi_read_post(Some(&mut ctx), 14, read.len() as i64, 5);
        if chunk.is_empty() {
            break;
        }
        read.extend(chunk);
    }
    assert_eq!(read, b"name=value&x=1");
    assert_eq!(ctx.post_read_offset, 14);
}

#[test]
fn post_body_edges() {
    let mut ctx = context(&[], b"abcdef");
    assert!(sapi_read_post(None, 6, 0, 10).is_empty());
    assert!(sapi_read_post(Some(&mut ctx), 0, 0, 10).is_empty());
    assert!(sapi_read_post(Some(&mut ctx), -1, 0, 10).is_empty());
    assert!(sapi_read_post(Some(&mut ctx), 6, 6, 10).is_empty());
    assert!(sapi_read_post(Some(&mut ctx), 6, -1, 10).is_empty());
    assert!(sapi_read_post(Some(&mut ctx), 6, 0, 0).is_empty());
    assert_eq!(ctx.post_read_offset, 0);
    assert_eq!(sapi_read_post(Some(&mut ctx), 3, 2, 10), b"abcdef");
    assert!(sapi_read_post(Some(&mut ctx), 100, 6, 10).is_empty());
    ctx.post_read_offset = 50;
    assert!(sapi_read_post(Some(&mut ctx), 100, 0, 10).is_empty());
    assert_eq!(ctx.post_read_offset, 50);
}

#[test]
fn announced_body_is_read_whole() {
    let body = b"0123456789abcdef".to_vec();
    let length = body.len().to_string();
    let mut ctx = context(&[("CONTENT_LENGTH", length.as_str())], &body);
    let announced = init_request_info(&ctx).content_length;
    assert_eq!(announced, 16);
    let mut read: Vec<u8> = Vec::new();
    for portion in [1usize, 0, 3, 7, 100] {
        let so_far = read.len() as i64;
        read.extend(sapi_read_post(Some(&mut ctx), announced, so_far, portion));
    }
    assert_eq!(read, body);
}

#[test]
fn cookies() {
    assert_eq!(sapi_read_cookies(None), None);
    assert_eq!(sapi_read_cookies(Some(&context(&[], b""))), None);
    let ctx = context(&[("HTTP_COOKIE", "a=1; b=2")], b"");
    assert_eq!(sapi_read_cookies(Some(&ctx)), Some("a=1; b=2".to_string()));
    let ctx = context(&[("HTTP_COOKIE", "a=\0")], b"");
    assert_eq!(sapi_read_cookies(Some(&ctx)), None);
}

#[test]
fn server_variables() {
    assert!(sapi_register_server_variables(None).is_empty());
    let ctx = context(
        &[("A", "1"), ("B\0", "2"), ("C", "\0"), ("SERVER_SOFTWARE", "nginx"), ("D", "4")],
        b"",
    );
    let mut variables = sapi_register_server_variables(Some(&ctx));
    assert_eq!(
        variables.pop(),
        Some(("SERVER_SOFTWARE".to_string(), "rust-fpm/0.1.0".to_string()))
    );
    variables.sort();
    assert_eq!(
        variables,
        vec![
            ("A".to_string(), "1".to_string()),
            ("D".to_string(), "4".to_string()),
            ("SERVER_SOFTWARE".to_string(), "nginx".to_string()),
        ]
    );
    let none = sapi_register_server_variables(Some(&context(&[], b"")));
    assert_eq!(none, vec![("SERVER_SOFTWARE".to_string(), "rust-fpm/0.1.0".to_string())]);
}

#[test]
fn log_messages() {
    assert_eq!(sapi_log_message(None), None);
    assert_eq!(sapi_log_message(Some(b"notice")), Some("notice".to_string()));
    assert_eq!(sapi_log_message(Some(&[0x61, 0xff])), Some("a\u{fffd}".to_string()));
}

#[test]
fn request_info_of_a_post() {
    let ctx = context(
        &[
            ("REQUEST_METHOD", "POST"),
            ("QUERY_STRING", "a=b"),
            ("REQUEST_URI", "/form?a=b"),
            ("CONTENT_TYPE", "text/plain"),
            ("CONTENT_LENGTH", "12"),
            ("SCRIPT_FILENAME", "/srv/form.php"),
        ],
        b"",
    );
    let info = init_request_info(&ctx);
    assert_eq!(info.http_response_code, 200);
    assert_eq!(info.request_method, Some("POST".to_string()));
    assert_eq!(info.query_string, Some("a=b".to_string()));
    assert_eq!(info.request_uri, Some("/form?a=b".to_string()));
    assert!(matches!(info.content_type, ContentType::Replace(ref t) if t == "text/plain"));
    assert_eq!(info.content_length, 12);
    assert_eq!(info.path_translated, Some("/srv/form.php".to_string()));
    assert_eq!(info.proto_num, 1001);
}

#[test]
fn request_info_defaults() {
    let info = init_request_info(&context(&[], b""));
    assert_eq!(info.request_method, Some("GET".to_string()));
    assert_eq!(info.query_string, Some("".to_string()));
    assert_eq!(info.request_uri, Some("/".to_string()));
    assert!(matches!(info.content_type, ContentType::Clear));
    assert_eq!(info.content_length, 0);
    assert_eq!(info.path_translated, Some("".to_string()));
}

#[test]
fn request_info_of_odd_texts() {
    let ctx = context(
        &[
            ("REQUEST_METHOD", "G\0"),
            ("QUERY_STRING", "\0"),
            ("REQUEST_URI", "\0/"),
            ("CONTENT_TYPE", "a\0b"),
            ("CONTENT_LENGTH", "lots"),
            ("SCRIPT_FILENAME", "x\0"),
        ],
        b"",
    );
    let info = init_request_info(&ctx);
    assert_eq!(info.request_method, None);
    assert_eq!(info.query_string, None);
    assert_eq!(info.request_uri, None);
    assert!(matches!(info.content_type, ContentType::Keep));
    assert_eq!(info.content_length, 0);
    assert_eq!(info.path_translated, None);
    let info = init_request_info(&context(&[("CONTENT_LENGTH", "-7")], b""));
    assert_eq!(info.content_length, -7);
}

#[test]
fn deactivation() {
    let present = InfoStrings {
        request_method: true,
        query_string: false,
        request_uri: true,
        content_type: false,
        cookie_data: true,
    };
    let none = InfoStrings {
        request_method: false,
        query_string: false,
        request_uri: false,
        content_type: false,
        cookie_data: false,
    };
    let mut ctx = context(&[], b"");
    let nothing = Deactivation { release: none, detach: false };
    assert_eq!(sapi_deactivate(false, Some(&mut ctx), present), nothing);
    assert!(!ctx.request_finished);
    assert_eq!(sapi_deactivate(true, None, present), nothing);
    let all = Deactivation { release: present, detach: true };
    assert_eq!(sapi_deactivate(true, Some(&mut ctx), present), all);
    assert!(ctx.request_finished);
}

#[test]
fn settings_for_php() {
    let settings = sapi_settings(None);
    assert_eq!(settings.name, "cgi-fcgi");
    assert_eq!(settings.pretty_name, "Rust FPM");
    assert_eq!(settings.php_ini_path, None);
    assert_eq!(
        settings.ini_entries,
        "html_errors=0\nimplicit_flush=0\noutput_buffering=0\nzend.max_allowed_stack_size=-1\n"
    );
    assert_eq!(sapi_settings(Some("/etc/php.ini")).php_ini_path, Some("/etc/php.ini".to_string()));
}

#[test]
fn response_with_default_content_type() {
    let mut ctx = context(&[], b"");
    sapi_send_header(Some(&mut ctx), Some(b"X-Powered-By: PHP"));
    sapi_ub_write(Some(&mut ctx), Some(b"<p>hi</p>"));
    assert_eq!(
        text(&format_response(&ctx)),
        "Status: 200 OK\r\nX-Powered-By: PHP\r\nContent-Type: text/html; charset=UTF-8\r\n\r\n<p>hi</p>"
    );
}

#[test]
fn response_with_own_content_type() {
    let mut ctx = context(&[], b"");
    ctx.http_status_code = 404;
    sapi_send_header(Some(&mut ctx), Some(b"cOnTeNt-TyPe: application/json"));
    sapi_send_header(Some(&mut ctx), Some(b"Cache-Control: no-store"));
    sapi_ub_write(Some(&mut ctx), Some(b"{}"));
    assert_eq!(
        text(&format_response(&ctx)),
        "Status: 404 Not Found\r\ncOnTeNt-TyPe: application/json\r\nCache-Control: no-store\r\n\r\n{}"
    );
}

#[test]
fn headers_that_are_almost_a_content_type() {
    let mut ctx = context(&[], b"");
    sapi_send_header(Some(&mut ctx), Some(b"Content-Type"));
    assert!(text(&format_response(&ctx)).contains("charset=UTF-8"));
    let mut ctx = context(&[], b"");
    sapi_send_header(Some(&mut ctx), Some(b"Content-Typo: x"));
    assert!(text(&format_response(&ctx)).contains("charset=UTF-8"));
    let mut ctx = context(&[], b"");
    sapi_send_header(Some(&mut ctx), Some(b"Content-Types: x"));
    assert!(!text(&format_response(&ctx)).contains("charset=UTF-8"));
}

#[test]
fn status_words() {
    for (code, words) in [
        (200, "OK"),
        (301, "Moved Permanently"),
        (302, "Found"),
        (304, "Not Modified"),
        (400, "Bad Request"),
        (401, "Unauthorized"),
        (403, "Forbidden"),
        (404, "Not Found"),
        (500, "Internal Server Error"),
        (502, "Bad Gateway"),
        (503, "Service Unavailable"),
        (418, "OK"),
        (65535, "OK"),
        (0, "OK"),
    ] {
        let ctx = RequestContext::error_response(code, "");
        let response = text(&format_response(&ctx));
        assert!(response.starts_with(&format!("Status: {} {}\r\n", code, words)));
    }
}

#[test]
fn request_without_script() {
    for list in [vec![("REQUEST_URI", "/x")], vec![("SCRIPT_FILENAME", "")]] {
        let plan = begin_request(params(&list), b"ignored".to_vec());
        assert_eq!(plan.method, "GET");
        assert_eq!(plan.script, "");
        match plan.step {
            Step::Answer(reply) => {
                assert_eq!(
                    text(&reply.stdout),
                    "Status: 404 Not Found\r\nContent-Type: text/plain\r\n\r\nNo SCRIPT_FILENAME"
                );
                assert_eq!(reply.app_status, 0);
            }
            Step::Execute(_) => panic!("there is no script to run"),
        }
    }
}

#[test]
fn request_with_script() {
    let plan = begin_request(
        params(&[
            ("SCRIPT_FILENAME", "/srv/index.php"),
            ("REQUEST_METHOD", "POST"),
            ("REQUEST_URI", "/"),
        ]),
        b"body".to_vec(),
    );
    assert_eq!(plan.method, "POST");
    assert_eq!(plan.uri, "/");
    assert_eq!(plan.script, "/srv/index.php");
    match plan.step {
        Step::Execute(ctx) => {
            assert_eq!(ctx.post_body, b"body");
            assert_eq!(ctx.params.get("REQUEST_METHOD"), Some("POST"));
            let reply = finish_request(Some(ctx));
            assert_eq!(
                text(&reply.stdout),
                "Status: 200 OK\r\nContent-Type: text/html; charset=UTF-8\r\n\r\n"
            );
            assert_eq!(reply.app_status, 0);
        }
        Step::Answer(_) => panic!("the script is to be run"),
    }
}

#[test]
fn request_that_panicked() {
    let reply = finish_request(None);
    assert_eq!(
        text(&reply.stdout),
        "Status: 500 Internal Server Error\r\nContent-Type: text/plain\r\n\r\nInternal error"
    );
    assert_eq!(reply.app_status, 1);
}

#[test]
fn peer_reads_what_php_wrote() {
    let mut ctx = context(&[("SCRIPT_FILENAME", "/a.php")], b"");
    sapi_ub_write(Some(&mut ctx), Some(b"one\r\n\r\n"));
    sapi_send_headers(Some(&mut ctx), Some(302));
    sapi_send_header(Some(&mut ctx), Some(b"Location: /b"));
    sapi_ub_write(Some(&mut ctx), Some(b"two"));
    let present = InfoStrings {
        request_method: true,
        query_string: true,
        request_uri: true,
        content_type: false,
        cookie_data: false,
    };
    sapi_deactivate(true, Some(&mut ctx), present);
    sapi_ub_write(Some(&mut ctx), Some(b"three"));
    let response = text(&format_response(&ctx));
    let (head, body) = response.split_once("\r\n\r\n").unwrap();
    let lines: Vec<&str> = head.split("\r\n").collect();
    assert_eq!(
        lines,
        vec!["Status: 302 Found", "Location: /b", "Content-Type: text/html; charset=UTF-8"]
    );
    assert_eq!(body, "one\r\n\r\ntwo");
}

#[test]
fn php_sees_what_was_received() {
    let params = extract_params(
        Some(fields(&[
            ("remote_addr", Some("10.0.0.1")),
            ("server_software", Some("nginx/1.25")),
            ("http_bad", Some("a\0b")),
            ("Remote_Addr", Some("10.0.0.2")),
        ])),
        7,
        "7.500000",
    );
    let ctx = RequestContext::new(params, Vec::new());
    let mut seen = std::collections::HashMap::new();
    for (name, value) in sapi_register_server_variables(Some(&ctx)) {
        seen.insert(name, value);
    }
    assert_eq!(seen["REMOTE_ADDR"], "10.0.0.2");
    assert_eq!(seen["SERVER_SOFTWARE"], "rust-fpm/0.1.0");
    assert_eq!(seen["REQUEST_TIME"], "7");
    assert!(!seen.contains_key("HTTP_BAD"));
    assert_eq!(seen.len(), 7);
}

#[test]
fn last_code_holds() {
    let mut ctx = context(&[], b"");
    sapi_send_headers(Some(&mut ctx), Some(404));
    sapi_ub_write(Some(&mut ctx), Some(b"x"));
    sapi_send_headers(Some(&mut ctx), Some(503));
    sapi_send_header(Some(&mut ctx), Some(b"X-A: 1"));
    assert_eq!(ctx.http_status_code, 503);
    assert!(text(&format_response(&ctx)).starts_with("Status: 503 Service Unavailable\r\n"));
}
