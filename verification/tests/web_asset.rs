use std::path::{Path, PathBuf};

use new_media::fetch::{
    body_outcome, failed_request_error, response_status_outcome, unexpected_status_message,
    FetchError, StatusOutcome,
};
use new_media::uri::{asset_path_has_extension, WebAssetReader};

#[test]
fn make_https_uri() {
    assert_eq!(
        WebAssetReader::Https.make_uri("s3.johanhelsing.studio/dump/favicon.png"),
        "https://s3.johanhelsing.studio/dump/favicon.png"
    );
}

#[test]
fn make_https_meta_uri() {
    assert_eq!(
        WebAssetReader::Https.make_meta_uri("s3.johanhelsing.studio/dump/favicon.png"),
        "https://s3.johanhelsing.studio/dump/favicon.png.meta"
    );
}

fn std_uri(path: &str) -> String {
    PathBuf::from("https://").join(Path::new(path)).to_str().unwrap().to_string()
}

fn std_meta_uri(path: &str) -> Option<String> {
    let p = Path::new(path);
    let mut extension = p.extension()?.to_os_string();
    extension.push(".meta");
    let mut uri = PathBuf::from("https://").join(p);
    uri.set_extension(extension);
    Some(uri.to_str().unwrap().to_string())
}

const PATHS: &[&str] = &[
    "",
    "a",
    "a.png",
    "/abs/file.png",
    "/",
    ".",
    "..",
    "./a.png",
    "a/b.png/",
    "a/b.png//",
    "a/b.png/.",
    "a/b.png/./",
    "a/..",
    "a/../",
    ".hidden",
    "dir/.hidden",
    "dir/.hidden.png",
    "a.",
    "a...",
    "x/y/z.tar.gz",
    "no_ext/",
    "weird//double.png",
    "host.com/a.b/c",
    "host.com/a.b/c.d",
    "..png",
    "./.",
    "a/./b.png",
];

#[test]
fn uri_matches_path_join() {
    for p in PATHS {
        assert_eq!(WebAssetReader::Https.make_uri(p), std_uri(p), "path {p:?}");
    }
}

#[test]
fn meta_uri_matches_set_extension() {
    for p in PATHS {
        let expected = std_meta_uri(p);
        assert_eq!(asset_path_has_extension(p), expected.is_some(), "path {p:?}");
        if let Some(e) = expected {
            assert_eq!(WebAssetReader::Https.make_meta_uri(p), e, "path {p:?}");
        }
    }
}

#[test]
fn absolute_path_replaces_scheme() {
    assert_eq!(WebAssetReader::Https.make_uri("/srv/x.png"), "/srv/x.png");
    assert_eq!(WebAssetReader::Https.make_meta_uri("/srv/x.png"), "/srv/x.png.meta");
}

#[test]
fn trailing_separator_is_dropped_from_meta_uri() {
    assert_eq!(WebAssetReader::Https.make_meta_uri("a/b.png/"), "https://a/b.png.meta");
    assert_eq!(WebAssetReader::Https.make_meta_uri("a."), "https://a..meta");
}

#[test]
fn no_extension_detected() {
    assert!(!asset_path_has_extension("s3.example/dump/favicon"));
    assert!(!asset_path_has_extension(".bashrc"));
    assert!(!asset_path_has_extension(""));
    assert!(asset_path_has_extension("s3.example/dump/favicon.png"));
}

#[test]
fn directory_answers() {
    let r = WebAssetReader::Https;
    assert!(!r.is_directory("s3.example/dump"));
    assert_eq!(
        r.read_directory("s3.example/dump"),
        FetchError::NotFound("https://s3.example/dump".to_string())
    );
}

#[test]
fn status_decisions() {
    assert_eq!(response_status_outcome(200, "https://h/a.png"), StatusOutcome::ReadBody);
    assert_eq!(
        response_status_outcome(404, "https://h/a.png"),
        StatusOutcome::Fail(FetchError::NotFound("https://h/a.png".to_string()))
    );
    assert_eq!(
        response_status_outcome(500, "https://h/a.png"),
        StatusOutcome::Fail(FetchError::Io(
            "unexpected status code 500 while loading https://h/a.png".to_string()
        ))
    );
    assert_eq!(
        unexpected_status_message(301, "x"),
        "unexpected status code 301 while loading x"
    );
    assert_eq!(
        failed_request_error(503, "https://h/a.png", "boom"),
        FetchError::Io("unexpected status code 503 while loading https://h/a.png: boom".to_string())
    );
}

#[test]
fn body_decisions() {
    assert_eq!(body_outcome(Some(vec![1, 2, 3]), "loc"), Ok(vec![1, 2, 3]));
    assert_eq!(body_outcome(None, "loc"), Err(FetchError::NotFound("loc".to_string())));
}

fn std_meta_path(path: &str) -> String {
    let p = Path::new(path);
    let mut meta_path = p.to_path_buf();
    let mut extension = p.extension().unwrap().to_os_string();
    extension.push(".meta");
    meta_path.set_extension(extension);
    meta_path.to_str().unwrap().to_string()
}

#[test]
fn meta_uri_is_uri_of_meta_path() {
    for p in PATHS {
        if asset_path_has_extension(p) {
            let r = WebAssetReader::Https;
            assert_eq!(r.make_meta_uri(p), r.make_uri(&std_meta_path(p)), "path {p:?}");
        }
    }
}

#[test]
fn meta_uri_names_the_asset() {
    for p in PATHS {
        if asset_path_has_extension(p) {
            let r = WebAssetReader::Https;
            let meta = r.make_meta_uri(p);
            let uri = r.make_uri(p);
            let meta = Path::new(&meta);
            assert_eq!(meta.extension().unwrap(), "meta", "path {p:?}");
            assert_eq!(meta.file_stem(), Path::new(p).file_name(), "path {p:?}");
            assert_eq!(meta.parent(), Path::new(&uri).parent(), "path {p:?}");
        }
    }
}
