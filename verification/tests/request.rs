use http_request::methods::Methods;
use http_request::request::{is_http, is_https, parse_hostname, parse_path, Request, RequestError};

const SECURED_URL: &str = "https://xyz.com";
const SECURED_URL_WITH_PATH: &str = "https://xyz.com/api/v1/hello";
const INSECURED_URL: &str = "http://xyz.com";
const FTP_URL: &str = "ftp://xyz.com";
const TOKEN: &str = "secret";

fn init_secured_request<'a>() -> Request<'a> {
    let secured_request = Request {
        method: Methods::GET,
        is_secured: true,
        hostname: String::from("xyz.com"),
        path: None,
        token: "secret",
    };
    secured_request
}

fn init_insecured_request<'a>() -> Request<'a> {
    let insecured_request = Request {
        method: Methods::GET,
        is_secured: false,
        hostname: String::from("xyz.com"),
        path: None,
        token: "secret",
    };
    insecured_request
}

#[test]
fn test_is_https_returns_true() {
    assert_eq!(is_https(&SECURED_URL), true)
}

#[test]
fn test_is_https_returns_false() {
    assert_eq!(is_https(&INSECURED_URL), false)
}

#[test]
fn test_is_http_returns_true() {
    assert_eq!(is_http(&INSECURED_URL), true)
}

#[test]
fn test_is_http_returns_false() {
    assert_eq!(is_http(&SECURED_URL), false)
}

#[test]
fn test_parse_hostname() {
    let hostname = parse_hostname(SECURED_URL);
    assert_eq!(hostname, String::from("xyz.com"))
}

#[test]
fn test_parse_hostname_with_path() {
    let hostname = parse_hostname(SECURED_URL_WITH_PATH);
    assert_eq!(hostname, String::from("xyz.com"))
}

#[test]
fn test_parse_path() {
    let path = parse_path(SECURED_URL_WITH_PATH);
    assert_eq!(path, Some(String::from("api/v1/hello")))
}

#[test]
fn test_parse_path_without_path() {
    let path = parse_path(SECURED_URL);
    assert_eq!(path, None)
}

#[test]
fn test_construct_https_request() {
    let req = Request::new(Methods::GET, SECURED_URL, TOKEN);
    assert_eq!(req, init_secured_request())
}

#[test]
fn test_construct_http_request() {
    let req = Request::new(Methods::GET, INSECURED_URL, TOKEN);
    assert_eq!(req, init_insecured_request())
}

#[test]
fn test_construct_ftp_request_is_rejected() {
    let res = Request::try_new(Methods::GET, FTP_URL, TOKEN);
    assert_eq!(res, Err(RequestError::InvalidProtocol));
    let res = Request::try_new(Methods::DELETE, FTP_URL, "other token");
    assert_eq!(res, Err(RequestError::InvalidProtocol));
}

#[test]
fn test_try_new_accepts_recognized_schemes() {
    let req = Request::try_new(Methods::GET, SECURED_URL, TOKEN).unwrap();
    assert_eq!(req, init_secured_request());
    let req = Request::try_new(Methods::GET, INSECURED_URL, TOKEN).unwrap();
    assert_eq!(req, init_insecured_request());
}

#[test]
fn test_is_https_substring_not_anchored() {
    assert_eq!(is_https("redirect?to=https://xyz.com"), true);
    assert_eq!(is_http("redirect?to=http://xyz.com"), true);
}

#[test]
fn test_scheme_checks_on_empty_and_bare_strings() {
    assert_eq!(is_https(""), false);
    assert_eq!(is_http(""), false);
    assert_eq!(is_https("https:/xyz.com"), false);
}

#[test]
fn test_parse_hostname_without_authority() {
    assert_eq!(parse_hostname(""), String::new());
    assert_eq!(parse_hostname("no slashes here"), String::new());
    assert_eq!(parse_hostname("ftp://host/rest"), String::from("host"));
}

#[test]
fn test_parse_path_with_trailing_slash_only() {
    assert_eq!(parse_path("http://xyz.com/"), None);
}

#[test]
fn test_parse_path_keeps_later_slashes() {
    assert_eq!(
        parse_path("http://xyz.com/a/b/c/"),
        Some(String::from("a/b/c/"))
    );
}

#[test]
fn test_construct_with_path_keeps_leading_slash() {
    let req = Request::new(Methods::PUT, SECURED_URL_WITH_PATH, TOKEN);
    assert_eq!(req.method, Methods::PUT);
    assert_eq!(req.is_secured, true);
    assert_eq!(req.hostname, String::from("xyz.com"));
    assert_eq!(req.path, Some(String::from("/api/v1/hello")));
    assert_eq!(req.token, "secret");
}

#[test]
fn test_render_defaults_to_root_path() {
    let rendered = Request::new(Methods::GET, SECURED_URL, TOKEN).render();
    assert!(rendered.starts_with("GET / HTTP/1.1\r\n"));
}

#[test]
fn test_render_full_wire_format() {
    let rendered = Request::new(Methods::GET, SECURED_URL_WITH_PATH, TOKEN).render();
    assert_eq!(
        rendered,
        String::from(
            "GET /api/v1/hello HTTP/1.1\r\nAuthorization: Bearer secret\r\nHost: xyz.com\r\nConnection: Close\r\n\r\n"
        )
    );
}

#[test]
fn test_render_without_path_full_wire_format() {
    let rendered = Request::new(Methods::POST, INSECURED_URL, TOKEN).render();
    assert_eq!(
        rendered,
        String::from(
            "POST / HTTP/1.1\r\nAuthorization: Bearer secret\r\nHost: xyz.com\r\nConnection: Close\r\n\r\n"
        )
    );
}

#[test]
fn test_address_joins_port() {
    let req = Request::new(Methods::GET, SECURED_URL_WITH_PATH, TOKEN);
    assert_eq!(req.address(), String::from("xyz.com:80"));
}

#[test]
fn test_construction_is_deterministic() {
    let first = Request::new(Methods::POST, SECURED_URL_WITH_PATH, TOKEN);
    let second = Request::new(Methods::POST, SECURED_URL_WITH_PATH, TOKEN);
    assert_eq!(first, second);
}
