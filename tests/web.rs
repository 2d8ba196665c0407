use vidthumb::cli::{CLIArgs, CLIError};
use vidthumb::loglevel::LogLevel;
use vidthumb::mime::{content_type_for_extension, get_content_type};
use vidthumb::query::{FilePath, VideoArgs};
use vidthumb::request::{parse_header, HttpMethod, HttpRequest, HttpRequestError, ASSET_CHUNK_SIZE};
use vidthumb::response::{route_matches, serve_range, HttpStatus, PARTIAL_CONTENT_SIZE};
use vidthumb::timespec::{Fraction, SeekPosition};
use vidthumb::uri::{decode_uri, find_query_arg, find_query_flag, split_query};
use vidthumb::error::RumpegError;

fn strings(v: &[&str]) -> Vec<String> {
    v.iter().map(|s| s.to_string()).collect()
}

#[test]
fn uri_decoding() {
    assert_eq!(decode_uri("a%20b"), "a b");
    assert_eq!(decode_uri("%zz!"), "%zz!");
    assert_eq!(decode_uri("x%4"), "x\u{4}");
    assert_eq!(decode_uri("%+41"), "\u{4}1");
    assert_eq!(decode_uri("%e9t%C3"), "\u{e9}t\u{c3}");
    assert_eq!(decode_uri("%"), "%");
    assert_eq!(decode_uri(""), "");
}

#[test]
fn query_arguments() {
    let q = split_query("width=320&film&start=5s&width=1");
    assert_eq!(q, strings(&["width=320", "film", "start=5s", "width=1"]));
    assert_eq!(split_query(""), strings(&[""]));
    assert!(find_query_flag(&q, "film"));
    assert!(!find_query_flag(&q, "width"));
    assert_eq!(find_query_arg(&q, "width"), Some("320".to_string()));
    assert_eq!(find_query_arg(&q, "height"), None);
    assert_eq!(find_query_arg(&strings(&["a=b=c"]), "a"), Some("b=c".to_string()));
}

#[test]
fn video_args_from_query() {
    let a = VideoArgs::from_query_string("width=320&height=240&start=50%&film");
    assert!(a.film);
    assert_eq!((a.width, a.height), (320, 240));
    assert_eq!(a.seek_position, SeekPosition::Percentage(Fraction { num: 50, den: 100 }));
    assert_eq!(a.end, SeekPosition::Percentage(Fraction { num: 1, den: 1 }));
    assert_eq!(a.step, SeekPosition::TimeBase(1));
    let b = VideoArgs::from_query_string("width=abc&end=3s&step=2s");
    assert!(!b.film);
    assert_eq!(b.width, 0);
    assert_eq!(b.seek_position, SeekPosition::TimeBase(0));
    assert_eq!(b.end, SeekPosition::Seconds(3));
    assert_eq!(b.step, SeekPosition::Seconds(2));
}

#[test]
fn file_paths() {
    assert_eq!(FilePath::from_path("/media/a/b.mp4", "/srv").unwrap(), FilePath("/srv/a/b.mp4".to_string()));
    assert_eq!(
        FilePath::from_path("/media", "/srv").unwrap_err(),
        HttpRequestError::Parse("Missing filepath".to_string())
    );
    assert!(FilePath::from_path("", "/srv").is_err());
}

#[test]
fn content_types() {
    assert_eq!(get_content_type("movie.MP4"), "video/mp4");
    assert_eq!(get_content_type("a.tar.gz"), "application/gzip");
    assert_eq!(get_content_type("noext"), "application/octet-stream");
    assert_eq!(get_content_type("x.unknown"), "application/octet-stream");
    assert_eq!(get_content_type("public/index.html"), "text/html");
    assert_eq!(content_type_for_extension(".webp"), "image/webp");
    assert_eq!(content_type_for_extension(".WEBP"), "application/octet-stream");
}

#[test]
fn request_parsing() {
    let raw = b"GET /frame/video%20one.mp4?width=320&film HTTP/1.1\r\nHost: x\r\nBad line\r\nRange:  bytes=0-99 \r\n\r\n";
    let r = HttpRequest::parse(raw).unwrap();
    assert_eq!(r.method, HttpMethod::Get);
    assert_eq!(r.path, "/frame/video one.mp4");
    assert_eq!(r.query_string, "width=320&film");
    assert_eq!(r.http_version, "HTTP/1.1");
    assert_eq!(
        r.headers,
        vec![("host".to_string(), "x".to_string()), ("range".to_string(), "bytes=0-99".to_string())]
    );
    assert_eq!(r.range(), Some((0, 99)));
}

#[test]
fn request_errors() {
    assert_eq!(
        HttpRequest::parse(b"POST / HTTP/1.1\r\n").unwrap_err(),
        HttpRequestError::Method("POST".to_string())
    );
    assert_eq!(
        HttpRequest::parse(b"GET /\r\n").unwrap_err(),
        HttpRequestError::Header("GET /".to_string())
    );
    assert_eq!(HttpRequest::parse(&[0xff, 0xfe]).unwrap_err(), HttpRequestError::Data);
    assert!(HttpRequest::parse(b"").is_err());
    assert_eq!(HttpMethod::try_from("GET"), Ok(HttpMethod::Get));
}

#[test]
fn ranges() {
    let r = HttpRequest::parse(b"GET / HTTP/1.1\nRange: bytes=100-\n").unwrap();
    assert_eq!(r.range(), Some((100, 100 + ASSET_CHUNK_SIZE)));
    let r = HttpRequest::parse(b"GET / HTTP/1.1\nrange: bytes=-7\nRANGE: bytes=5-9\n").unwrap();
    assert_eq!(r.range(), Some((5, 9)));
    let r = HttpRequest::parse(b"GET / HTTP/1.1\nRange: bytes\n").unwrap();
    assert_eq!(r.range(), None);
    let r = HttpRequest::parse(b"GET / HTTP/1.1\n").unwrap();
    assert_eq!(r.range(), None);
    assert_eq!(parse_header("a: b: c"), Some(("a".to_string(), "b: c".to_string())));
    assert_eq!(parse_header("nothing"), None);
}

#[test]
fn response_decisions() {
    assert_eq!(HttpStatus::OK.as_tuple(), (200, "OK"));
    assert_eq!(HttpStatus::PartialContent.as_tuple(), (206, "Partial Content"));
    assert_eq!(HttpStatus::NotFound.as_tuple(), (404, "Not Found"));
    assert_eq!(HttpStatus::InternalServerError("x".to_string()).as_tuple(), (500, "Internal Server Error"));
    assert_eq!(serve_range(None, 1000), None);
    assert_eq!(serve_range(Some((0, 99)), 1000), Some((0, 99)));
    assert_eq!(serve_range(Some((10, 10)), 1000), Some((10, 1000)));
    assert_eq!(serve_range(Some((0, 10_000_000)), 20_000_000), Some((0, ASSET_CHUNK_SIZE)));
    assert_eq!(serve_range(None, PARTIAL_CONTENT_SIZE + 1), Some((0, ASSET_CHUNK_SIZE)));
    assert!(route_matches("/frame/*", "/frame/x.mp4"));
    assert!(route_matches("/*", "/index.html"));
    assert!(route_matches("/favicon.ico", "/favicon.ico"));
    assert!(!route_matches("/frame/*", "/fram"));
    assert!(!route_matches("/favicon.ico", "/favicon.icon"));
}

#[test]
fn command_line() {
    let a = CLIArgs::from_args(&strings(&[
        "prog", "video.mp4", "-w", "320", "-s", "10%", "-f", "-l", "DEBUG", "-step", "2s",
    ]))
    .unwrap();
    assert_eq!(a.filepath, "video.mp4");
    assert!(a.film && !a.host && !a.debug);
    assert_eq!((a.width, a.height), (320, 0));
    assert_eq!(a.seek_position, SeekPosition::Percentage(Fraction { num: 10, den: 100 }));
    assert_eq!(a.log_level, LogLevel::Debug);
    assert_eq!(a.end, SeekPosition::Percentage(Fraction { num: 1, den: 1 }));
    assert_eq!(a.step, SeekPosition::Seconds(2));
    assert_eq!(CLIArgs::from_args(&strings(&["prog"])).unwrap_err(), CLIError::FilepathMissing);
    let b = CLIArgs::from_args(&strings(&["prog", "v.mp4", "-host", "-l"])).unwrap();
    assert!(b.host);
    assert_eq!(b.log_level, LogLevel::Warning);
    assert_eq!(CLIArgs::find_arg(&strings(&["-w"]), "-w"), None);
}

#[test]
fn log_levels() {
    assert_eq!(LogLevel::from_str("quiet"), Ok(LogLevel::Quiet));
    assert_eq!(LogLevel::from_str("Trace"), Ok(LogLevel::Trace));
    assert_eq!(LogLevel::from_str("nope"), Err(RumpegError::UnknownLogLevel));
    assert_eq!(LogLevel::Quiet.value(), -8);
    assert_eq!(LogLevel::Trace.value(), 56);
    assert_eq!(LogLevel::default(), LogLevel::Warning);
}
