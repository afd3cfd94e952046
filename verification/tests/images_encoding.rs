use imglaze::images::{check_image_path, check_image_url, extension_of, is_image_ext, wrap_proxy, ImageUrlError, UrlError};
use imglaze::messages::OverlayCommandData;

#[test]
fn image_url_with_accepted_extensions() {
    for ext in ["png", "jpg", "jpeg", "webp", "avif", "jxl", "bmp", "svg"] {
        let url = format!("https://example.com/images/cat.{}", ext);
        assert!(check_image_url(&url).is_ok(), "{}", url);
    }
}

#[test]
fn image_url_with_other_extension_is_refused() {
    for url in ["https://example.com/cat.gif", "https://example.com/cat.PNG", "https://example.com/cat", "https://example.com/", "https://example.com/.png", "https://example.com/a.tar.gz"] {
        match check_image_url(url) {
            Err(ImageUrlError::ExtensionNotAllowed) => {}
            _ => panic!("{} should be refused for its extension", url),
        }
    }
}

#[test]
fn image_url_path_ignores_query_and_trailing_slash() {
    assert!(check_image_url("https://example.com/cat.png?size=2#x").is_ok());
    assert!(check_image_url("https://example.com/cat.png/").is_ok());
    assert!(check_image_url("https://example.com/a/./cat.webp").is_ok());
}

#[test]
fn image_url_that_does_not_parse() {
    match check_image_url("not a url") {
        Err(e @ ImageUrlError::InvalidUrl(UrlError::RelativeUrlWithoutBase)) => assert_eq!(e.message(), "relative URL without a base"),
        _ => panic!("expected a parse error"),
    }
    match check_image_url("https://example.com:99999/cat.png") {
        Err(e @ ImageUrlError::InvalidUrl(UrlError::InvalidPort)) => assert_eq!(e.message(), "invalid port number"),
        _ => panic!("expected an invalid port"),
    }
    match check_image_url("https://[::1/cat.png") {
        Err(e @ ImageUrlError::InvalidUrl(UrlError::InvalidIpv6Address)) => assert_eq!(e.message(), "invalid IPv6 address"),
        _ => panic!("expected an invalid IPv6 address"),
    }
}

#[test]
fn url_error_texts() {
    assert_eq!(UrlError::EmptyHost.message(), "empty host");
    assert_eq!(UrlError::SetHostOnCannotBeABaseUrl.message(), "a cannot-be-a-base URL doesn\u{2019}t have a host to set");
    assert_eq!(UrlError::Overflow.message(), "URLs more than 4 GB are not supported");
    assert_eq!(UrlError::Other("x".to_string()).message(), "x");
}

#[test]
fn extension_message() {
    assert_eq!(ImageUrlError::ExtensionNotAllowed.message(), "Extension not found or whitelisted");
}

#[test]
fn extension_of_paths_follows_std_path() {
    for p in ["/a/b.png", "/a/b.", "/a/.b", "/a/..", "/", "", "a.b.c", "/x/y.png//", "/x/y.png/.", "./z.svg", ".."] {
        let expected = std::path::Path::new(p).extension().map(|e| e.to_str().unwrap().to_string());
        assert_eq!(extension_of(p), expected, "{}", p);
    }
}

#[test]
fn image_ext_is_case_sensitive() {
    assert!(is_image_ext("jpeg"));
    assert!(!is_image_ext("JPEG"));
    assert!(!is_image_ext(""));
    assert!(check_image_path("/x.bmp").is_ok());
}

#[test]
fn proxy_link_percent_encodes() {
    assert_eq!(
        wrap_proxy("https://proxy.example", "https://a.com/b c.png"),
        "https://proxy.example/?url=https%3A%2F%2Fa.com%2Fb%20c.png"
    );
    assert_eq!(wrap_proxy("p", "é-_.~"), "p/?url=%C3%A9-_.~");
}

#[test]
fn command_json_matches_overlay_format() {
    let data = OverlayCommandData::Image("a\"b\\c\n\u{1}".to_string());
    assert_eq!(data.to_json().unwrap(), "{\"type\":\"Image\",\"content\":\"a\\\"b\\\\c\\n\\u0001\"}");
    let plain = OverlayCommandData::Image("https://x/y.png".to_string());
    assert_eq!(plain.to_json().unwrap(), "{\"type\":\"Image\",\"content\":\"https://x/y.png\"}");
}
