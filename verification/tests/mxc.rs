use retrix::{classify_mxc, parse_mxc, path_first_segment, MxcError, UrlParts};

fn parts(scheme: &str, host: Option<&str>, path: &str) -> Option<UrlParts> {
    Some(UrlParts {
        scheme: scheme.to_string(),
        host: host.map(str::to_string),
        path: path.to_string(),
    })
}

#[test]
fn parse_mxc_gives_server_and_media() {
    assert_eq!(
        parse_mxc("mxc://matrix.org/FHyPlCeYUSFFxlgbQYZmoEoe"),
        Ok(("matrix.org".to_string(), "FHyPlCeYUSFFxlgbQYZmoEoe".to_string()))
    );
}

#[test]
fn parse_mxc_takes_the_first_path_segment() {
    assert_eq!(
        parse_mxc("mxc://example.org:8448/abc/def"),
        Ok(("example.org".to_string(), "abc".to_string()))
    );
    assert_eq!(parse_mxc("mxc://example.org/"), Ok(("example.org".to_string(), String::new())));
}

#[test]
fn parse_mxc_refuses_what_is_no_url() {
    assert_eq!(parse_mxc("not a url"), Err(MxcError::InvalidUrl));
    assert_eq!(parse_mxc(""), Err(MxcError::InvalidUrl));
}

#[test]
fn parse_mxc_refuses_another_scheme() {
    assert_eq!(parse_mxc("https://matrix.org/abc"), Err(MxcError::NotMxc));
}

#[test]
fn parse_mxc_refuses_a_url_without_host() {
    assert_eq!(parse_mxc("mxc:/abc"), Err(MxcError::MissingHost));
    assert_eq!(parse_mxc("mxc:abc"), Err(MxcError::MissingHost));
}

#[test]
fn parse_mxc_refuses_a_host_that_is_no_server_name() {
    assert_eq!(parse_mxc("mxc://exa_mple.org/abc"), Err(MxcError::InvalidServerName));
}

#[test]
fn parse_mxc_refuses_a_url_without_path() {
    assert_eq!(parse_mxc("mxc://matrix.org"), Err(MxcError::MissingMedia));
}

#[test]
fn classify_mxc_decides_in_order() {
    assert_eq!(classify_mxc(None, true), Err(MxcError::InvalidUrl));
    assert_eq!(classify_mxc(parts("http", None, ""), false), Err(MxcError::NotMxc));
    assert_eq!(classify_mxc(parts("mxc", None, "/m"), true), Err(MxcError::MissingHost));
    assert_eq!(
        classify_mxc(parts("mxc", Some("a.b"), ""), false),
        Err(MxcError::InvalidServerName)
    );
    assert_eq!(classify_mxc(parts("mxc", Some("a.b"), ""), true), Err(MxcError::MissingMedia));
    assert_eq!(classify_mxc(parts("mxc", Some("a.b"), "m"), true), Err(MxcError::MissingMedia));
    assert_eq!(
        classify_mxc(parts("mxc", Some("a.b"), "/m/n"), true),
        Ok(("a.b".to_string(), "m".to_string()))
    );
}

#[test]
fn the_first_segment_of_a_path_ends_at_the_next_slash() {
    assert_eq!(path_first_segment(""), None);
    assert_eq!(path_first_segment("abc"), None);
    assert_eq!(path_first_segment("abc/def"), None);
    assert_eq!(path_first_segment("/"), Some(String::new()));
    assert_eq!(path_first_segment("//x"), Some(String::new()));
    assert_eq!(path_first_segment("/abc"), Some("abc".to_string()));
    assert_eq!(path_first_segment("/abc/"), Some("abc".to_string()));
    assert_eq!(path_first_segment("/abc/def/ghi"), Some("abc".to_string()));
    assert_eq!(path_first_segment("/\u{e9}t\u{e9}/\u{fc}"), Some("\u{e9}t\u{e9}".to_string()));
}

#[test]
fn parse_mxc_leaves_query_and_fragment_out_of_the_media() {
    assert_eq!(
        parse_mxc("mxc://matrix.org/abc?width=3#top"),
        Ok(("matrix.org".to_string(), "abc".to_string()))
    );
}

#[test]
fn mxc_errors_have_their_texts() {
    assert_eq!(MxcError::InvalidUrl.message(), "Invalid url");
    assert_eq!(MxcError::NotMxc.message(), "Not an mxc url");
    assert_eq!(MxcError::MissingHost.message(), "url");
    assert_eq!(
        MxcError::InvalidServerName.message(),
        "server name is not a valid IP address or domain name"
    );
    assert_eq!(MxcError::MissingMedia.message(), "Invalid mxc url");
}
