use httpd_core::config::ServerConfig;
use httpd_core::method::HttpMethod;
use httpd_core::request::HttpRequest;
use httpd_core::response::{decimal_text, resolve, status_line_text, wanted_file};
use httpd_core::status::HttpStatusCode;

fn config() -> ServerConfig {
    ServerConfig::new("127.0.0.1:8080", "/var/www", "index.html", "404.html", "HTTP/1.1")
}

fn failure(status: HttpStatusCode) -> Result<Box<HttpRequest<'static>>, HttpStatusCode> {
    Err(status)
}

#[test]
fn status_table_is_fixed() {
    assert_eq!(HttpStatusCode::Continue.value(), (100, "Continue"));
    assert_eq!(HttpStatusCode::HttpOk.value(), (200, "OK"));
    assert_eq!(HttpStatusCode::BadRequest.value(), (400, "Bad request"));
    assert_eq!(HttpStatusCode::Unauthorized.value(), (401, "Unauthorized"));
    assert_eq!(HttpStatusCode::Forbidden.value(), (403, "Forbidden"));
    assert_eq!(HttpStatusCode::NotFound.value(), (404, "Not Found"));
    assert_eq!(HttpStatusCode::InternalServerError.value(), (500, "Internal Server Error"));
    assert_eq!(HttpStatusCode::NotImplemented.value(), (501, "Not implemented"));
}

#[test]
fn decimal_text_writes_numerals() {
    assert_eq!(decimal_text(0), "0");
    assert_eq!(decimal_text(7), "7");
    assert_eq!(decimal_text(10), "10");
    assert_eq!(decimal_text(200), "200");
    assert_eq!(decimal_text(404), "404");
    assert_eq!(decimal_text(501), "501");
    assert_eq!(decimal_text(9999), "9999");
    assert_eq!(decimal_text(65535), "65535");
    assert_eq!(decimal_text(12345), "12345");
}

#[test]
fn status_line_has_the_fixed_form() {
    assert_eq!(status_line_text("HTTP/1.1", HttpStatusCode::HttpOk), "HTTP/1.1 200 OK\r\n\r\n");
    assert_eq!(
        status_line_text("HTTP/1.1", HttpStatusCode::NotFound),
        "HTTP/1.1 404 Not Found\r\n\r\n"
    );
    assert_eq!(
        status_line_text("HTTP/1.0", HttpStatusCode::Continue),
        "HTTP/1.0 100 Continue\r\n\r\n"
    );
    assert_eq!(status_line_text("", HttpStatusCode::Forbidden), " 403 Forbidden\r\n\r\n");
}

#[test]
fn default_index_is_served_with_its_contents() {
    let cfg = config();
    let parsed =
        HttpRequest::parse_request("GET / HTTP/1.1", &cfg, Some("/var/www/index.html"), "/var/www");
    assert_eq!(wanted_file(&parsed, &cfg), Some("/var/www/index.html"));
    let body = b"<html>\r\n\r\nhello \xff\x00 world</html>\n";
    let bytes = resolve(&parsed, &cfg, Some(&body[..]));
    let mut expected = b"HTTP/1.1 200 OK\r\n\r\n".to_vec();
    expected.extend_from_slice(body);
    assert_eq!(bytes, expected);
    assert_eq!(&bytes[19..], &body[..]);
}

#[test]
fn empty_file_is_served_with_empty_body() {
    let cfg = config();
    let parsed =
        HttpRequest::parse_request("GET /e HTTP/1.1", &cfg, Some("/var/www/e"), "/var/www");
    assert_eq!(resolve(&parsed, &cfg, Some(&[][..])), b"HTTP/1.1 200 OK\r\n\r\n".to_vec());
}

#[test]
fn unreadable_file_is_internal_server_error() {
    let cfg = config();
    let parsed =
        HttpRequest::parse_request("GET /a HTTP/1.1", &cfg, Some("/var/www/a"), "/var/www");
    assert_eq!(
        resolve(&parsed, &cfg, None),
        b"HTTP/1.1 500 Internal Server Error\r\n\r\n".to_vec()
    );
}

#[test]
fn request_with_other_method_is_internal_server_error() {
    let cfg = config();
    for method in [
        HttpMethod::POST,
        HttpMethod::UPDATE,
        HttpMethod::DELETE,
        HttpMethod::CONNECT,
        HttpMethod::TRACE,
        HttpMethod::HEAD,
        HttpMethod::OPTION,
    ] {
        let request = Ok(Box::new(HttpRequest::new(method, "/var/www/a", "HTTP/1.1", None)));
        assert_eq!(wanted_file(&request, &cfg), None);
        assert_eq!(
            resolve(&request, &cfg, Some(&b"data"[..])),
            b"HTTP/1.1 500 Internal Server Error\r\n\r\n".to_vec()
        );
        assert_eq!(
            resolve(&request, &cfg, None),
            b"HTTP/1.1 500 Internal Server Error\r\n\r\n".to_vec()
        );
    }
}

#[test]
fn missing_file_gets_the_notfound_page() {
    let cfg = config();
    let parsed = HttpRequest::parse_request("GET /missing.html HTTP/1.1", &cfg, None, "/var/www");
    assert_eq!(parsed.as_ref().err(), Some(&HttpStatusCode::NotFound));
    assert_eq!(wanted_file(&parsed, &cfg), Some("404.html"));
    let bytes = resolve(&parsed, &cfg, Some(&b"<h1>gone</h1>"[..]));
    assert_eq!(bytes, b"HTTP/1.1 404 Not Found\r\n\r\n<h1>gone</h1>".to_vec());
}

#[test]
fn unreadable_notfound_page_is_internal_server_error() {
    let cfg = config();
    assert_eq!(
        resolve(&failure(HttpStatusCode::NotFound), &cfg, None),
        b"HTTP/1.1 500 Internal Server Error\r\n\r\n".to_vec()
    );
}

#[test]
fn escaping_target_is_answered_400_never_200() {
    let cfg = config();
    let parsed = HttpRequest::parse_request(
        "GET /../secret.txt HTTP/1.1",
        &cfg,
        Some("/var/secret.txt"),
        "/var/www",
    );
    assert_eq!(wanted_file(&parsed, &cfg), None);
    let bytes = resolve(&parsed, &cfg, Some(&b"top secret"[..]));
    assert_eq!(bytes, b"HTTP/1.1 400 Bad request\r\n\r\n400 - BAD REQUEST".to_vec());
    assert_eq!(resolve(&parsed, &cfg, None), bytes);
}

#[test]
fn protocol_mismatch_is_answered_400() {
    let cfg = config();
    let parsed = HttpRequest::parse_request(
        "GET /index.html HTTP/1.0",
        &cfg,
        Some("/var/www/index.html"),
        "/var/www",
    );
    assert_eq!(
        resolve(&parsed, &cfg, None),
        b"HTTP/1.1 400 Bad request\r\n\r\n400 - BAD REQUEST".to_vec()
    );
}

#[test]
fn failures_have_fixed_answers() {
    let cfg = config();
    let page = Some(&b"page"[..]);
    assert_eq!(
        resolve(&failure(HttpStatusCode::NotImplemented), &cfg, page),
        b"HTTP/1.1 501 Not implemented\r\n\r\n".to_vec()
    );
    assert_eq!(
        resolve(&failure(HttpStatusCode::Unauthorized), &cfg, page),
        b"HTTP/1.1 401 Unauthorized\r\n\r\n401 - UNAUTHORIZED".to_vec()
    );
    assert_eq!(
        resolve(&failure(HttpStatusCode::Forbidden), &cfg, page),
        b"HTTP/1.1 403 Forbidden\r\n\r\n403 - FORBIDDEN".to_vec()
    );
    assert_eq!(
        resolve(&failure(HttpStatusCode::InternalServerError), &cfg, page),
        b"HTTP/1.1 500 Internal Server Error\r\n\r\n".to_vec()
    );
    assert_eq!(
        resolve(&failure(HttpStatusCode::Continue), &cfg, page),
        b"HTTP/1.1 500 Internal Server Error\r\n\r\n".to_vec()
    );
    assert_eq!(
        resolve(&failure(HttpStatusCode::HttpOk), &cfg, page),
        b"HTTP/1.1 200 OK\r\n\r\n".to_vec()
    );
    assert_eq!(
        resolve(&failure(HttpStatusCode::BadRequest), &cfg, page),
        b"HTTP/1.1 400 Bad request\r\n\r\n400 - BAD REQUEST".to_vec()
    );
}

#[test]
fn only_served_files_and_404_want_a_file() {
    let cfg = config();
    for status in [
        HttpStatusCode::Continue,
        HttpStatusCode::HttpOk,
        HttpStatusCode::BadRequest,
        HttpStatusCode::Unauthorized,
        HttpStatusCode::Forbidden,
        HttpStatusCode::InternalServerError,
        HttpStatusCode::NotImplemented,
    ] {
        assert_eq!(wanted_file(&failure(status), &cfg), None);
    }
    assert_eq!(wanted_file(&failure(HttpStatusCode::NotFound), &cfg), Some("404.html"));
}

#[test]
fn response_carries_the_configured_version() {
    let cfg = ServerConfig::new("0.0.0.0:80", "/srv", "home.html", "gone.html", "HTTP/1.0");
    let parsed = HttpRequest::parse_request("GET / HTTP/1.0", &cfg, Some("/srv/home.html"), "/srv");
    assert_eq!(wanted_file(&parsed, &cfg), Some("/srv/home.html"));
    assert_eq!(resolve(&parsed, &cfg, Some(&b"hi"[..])), b"HTTP/1.0 200 OK\r\n\r\nhi".to_vec());
    assert_eq!(
        HttpRequest::lookup_path("GET / HTTP/1.0", &cfg),
        Ok(String::from("home.html"))
    );
    assert_eq!(wanted_file(&failure(HttpStatusCode::NotFound), &cfg), Some("gone.html"));
}
