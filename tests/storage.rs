use blob_storage::blob::Blob;
use blob_storage::error::StorageError;
use blob_storage::file::{add_path_into_database, get_path};
use blob_storage::manifest::{file_list_to_json, ManifestBuilder};
use blob_storage::mime::classify;
use blob_storage::object_store::ObjectStore;
use blob_storage::storage::{SourceFile, Storage, StorageConfig};
use rustc_serialize::json::Json;

fn text(s: &str) -> Vec<u8> {
    s.as_bytes().to_vec()
}

fn blob(path: &str, mime: &str, content: &[u8]) -> Blob {
    Blob::new(path.to_string(), mime.to_string(), 1_600_000_000, content.to_vec())
}

fn three_files() -> Vec<SourceFile> {
    vec![
        SourceFile::new("a.html".to_string(), text("<html><body>a</body></html>")),
        SourceFile::new("sub/b.css".to_string(), text("body { color: red; }")),
        SourceFile::new("c.json".to_string(), text("{\"k\": 1}")),
    ]
}

fn pairs(v: &[(&str, &str)]) -> Vec<(String, String)> {
    v.iter().map(|(a, b)| (a.to_string(), b.to_string())).collect()
}

#[test]
fn classify_text_by_name() {
    assert_eq!(classify("index.html", b"<html></html>"), "text/html");
    assert_eq!(classify("style.css", b"p {}"), "text/css");
    assert_eq!(classify("data.json", b"[1]"), "application/json");
    assert_eq!(classify("main.js", b"var x;"), "application/javascript");
    assert_eq!(classify("logo.svg", b"<svg/>"), "image/svg+xml");
    assert_eq!(classify("README.md", b"# t"), "text/markdown");
    assert_eq!(classify("lib.rs", b"fn f() {}"), "text/rust");
    assert_eq!(classify("Cargo.toml", b"[package]"), "text/toml");
    assert_eq!(classify("notes", b"plain words"), "text/plain");
}

#[test]
fn classify_sniffs_signatures_before_names() {
    assert_eq!(classify("image.html", &[0x89, b'P', b'N', b'G', 0x0d, 0x0a]), "image/png");
    assert_eq!(classify("x", b"GIF89a"), "image/gif");
    assert_eq!(classify("x.css", &[0xff, 0xd8, 0xff, 0xe0]), "image/jpeg");
    assert_eq!(classify("doc", b"%PDF-1.4"), "application/pdf");
    assert_eq!(classify("a.gz", &[0x1f, 0x8b, 0x08]), "application/gzip");
    assert_eq!(classify("a.zip", &[b'P', b'K', 3, 4]), "application/zip");
}

#[test]
fn classify_falls_back_for_empty_and_binary() {
    assert_eq!(classify("empty.html", b""), "application/octet-stream");
    assert_eq!(classify("data.css", &[1, 0, 2]), "application/octet-stream");
}

#[test]
fn get_after_put_returns_content_and_mime() {
    let mut s = ObjectStore::new();
    assert!(s.put(blob("docs/a.html", "text/html", b"<p>a</p>")).is_ok());
    let b = s.get("docs/a.html").unwrap();
    assert_eq!(b.content, b"<p>a</p>".to_vec());
    assert_eq!(b.mime, "text/html");
    assert_eq!(b.path, "docs/a.html");
    assert!(s.contains("docs/a.html"));
}

#[test]
fn get_of_unwritten_path_is_absent() {
    let mut s = ObjectStore::new();
    assert!(s.get("nothing").is_none());
    assert!(s.put(blob("a", "text/plain", b"x")).is_ok());
    assert!(s.get("b").is_none());
    assert!(!s.contains("b"));
    let mut st = Storage::new(StorageConfig::ObjectStore(None));
    assert!(matches!(st.get("missing"), Ok(None)));
    assert!(matches!(get_path(&mut st, "missing"), Ok(None)));
}

#[test]
fn put_twice_keeps_one_copy() {
    let mut s = ObjectStore::new();
    let b = blob("p", "text/css", b"a {}");
    assert!(s.put(b.duplicate()).is_ok());
    assert!(s.put(b.duplicate()).is_ok());
    assert_eq!(s.len(), 1);
    let got = s.get("p").unwrap();
    assert_eq!(got.content, b.content);
    assert_eq!(got.mime, b.mime);
}

#[test]
fn put_replaces_whole_blob() {
    let mut s = ObjectStore::new();
    assert!(s.put(blob("p", "text/css", b"a {}")).is_ok());
    assert!(s.put(blob("p", "text/html", b"<b>")).is_ok());
    let got = s.get("p").unwrap();
    assert_eq!(got.mime, "text/html");
    assert_eq!(got.content, b"<b>".to_vec());
    assert_eq!(s.len(), 1);
}

#[test]
fn manifest_follows_discovery_order() {
    let mut st = Storage::new(StorageConfig::ObjectStore(None));
    let m = st.store_all("prefix", &three_files(), 7).unwrap();
    assert_eq!(
        m,
        pairs(&[("text/html", "a.html"), ("text/css", "sub/b.css"), ("application/json", "c.json")])
    );
    let b = get_path(&mut st, "prefix/sub/b.css").unwrap().unwrap();
    assert_eq!(b.mime, "text/css");
    assert_eq!(b.content, text("body { color: red; }"));
    assert_eq!(b.date_updated, 7);
    assert!(matches!(st.contains("sub/b.css"), Ok(false)));
}

#[test]
fn empty_prefix_keys_by_relative_path() {
    let mut st = Storage::new(StorageConfig::ObjectStore(None));
    assert!(st.store_all("", &three_files(), 0).is_ok());
    assert!(matches!(st.contains("a.html"), Ok(true)));
    assert!(matches!(st.contains("/a.html"), Ok(false)));
}

#[test]
fn empty_directory_gives_empty_manifest() {
    let mut st = Storage::new(StorageConfig::ObjectStore(None));
    let m = st.store_all("prefix", &Vec::new(), 0).unwrap();
    assert!(m.is_empty());
    match &st {
        Storage::ObjectStore(s) => assert_eq!(s.len(), 0),
        Storage::Database(_) => panic!("wrong backend"),
    }
}

#[test]
fn failure_on_second_file_aborts_and_keeps_first() {
    let mut st = Storage::new(StorageConfig::ObjectStore(Some(1)));
    let r = st.store_all("p", &three_files(), 0);
    assert!(matches!(r, Err(StorageError::ObjectStoreFull)));
    match &st {
        Storage::ObjectStore(s) => assert_eq!(s.len(), 1),
        Storage::Database(_) => panic!("wrong backend"),
    }
    assert!(matches!(get_path(&mut st, "p/a.html"), Ok(Some(_))));
    assert!(matches!(get_path(&mut st, "p/sub/b.css"), Ok(None)));
    assert!(matches!(get_path(&mut st, "p/c.json"), Ok(None)));
}

#[test]
fn full_store_still_replaces_existing_paths() {
    let mut s = ObjectStore::with_limit(1);
    assert!(s.put(blob("a", "text/plain", b"1")).is_ok());
    assert!(matches!(s.put(blob("b", "text/plain", b"2")), Err(StorageError::ObjectStoreFull)));
    assert!(s.put(blob("a", "text/plain", b"3")).is_ok());
    assert_eq!(s.get("a").unwrap().content, b"3".to_vec());
}

#[test]
fn manifest_does_not_depend_on_backend_configuration() {
    let mut unbounded = Storage::new(StorageConfig::ObjectStore(None));
    let mut bounded = Storage::new(StorageConfig::ObjectStore(Some(3)));
    let a = unbounded.store_all("x", &three_files(), 1).unwrap();
    let b = bounded.store_all("y", &three_files(), 2).unwrap();
    assert_eq!(a, b);
}

#[test]
fn manifest_builder_keeps_order() {
    let mut mb = ManifestBuilder::new();
    mb.add("text/css".to_string(), "z.css".to_string());
    mb.add("text/html".to_string(), "a.html".to_string());
    assert_eq!(mb.finish(), pairs(&[("text/css", "z.css"), ("text/html", "a.html")]));
}

#[test]
fn manifest_json_is_list_of_pairs() {
    let j = file_list_to_json(pairs(&[("text/html", "a.html"), ("text/css", "sub/b.css")]));
    let expected = Json::Array(vec![
        Json::Array(vec![Json::String("text/html".to_string()), Json::String("a.html".to_string())]),
        Json::Array(vec![
            Json::String("text/css".to_string()),
            Json::String("sub/b.css".to_string()),
        ]),
    ]);
    assert_eq!(j, expected);
    assert_eq!(j.to_string(), "[[\"text/html\",\"a.html\"],[\"text/css\",\"sub/b.css\"]]");
    assert_eq!(file_list_to_json(Vec::new()).to_string(), "[]");
}

#[test]
fn add_path_into_database_returns_json_manifest() {
    let mut st = Storage::new(StorageConfig::ObjectStore(None));
    let j = add_path_into_database(&mut st, "crate/1.0", &three_files(), 0).unwrap();
    assert_eq!(
        j.to_string(),
        "[[\"text/html\",\"a.html\"],[\"text/css\",\"sub/b.css\"],[\"application/json\",\"c.json\"]]"
    );
    assert!(matches!(get_path(&mut st, "crate/1.0/c.json"), Ok(Some(_))));
    let mut full = Storage::new(StorageConfig::ObjectStore(Some(0)));
    assert!(matches!(
        add_path_into_database(&mut full, "p", &three_files(), 0),
        Err(StorageError::ObjectStoreFull)
    ));
}

#[test]
fn ingesting_twice_stores_each_file_once() {
    let mut st = Storage::new(StorageConfig::ObjectStore(None));
    let first = st.store_all("p", &three_files(), 5).unwrap();
    let second = st.store_all("p", &three_files(), 5).unwrap();
    assert_eq!(first, second);
    match &st {
        Storage::ObjectStore(s) => assert_eq!(s.len(), 3),
        Storage::Database(_) => panic!("wrong backend"),
    }
    let b = get_path(&mut st, "p/a.html").unwrap().unwrap();
    assert_eq!(b.content, text("<html><body>a</body></html>"));
    assert_eq!(b.mime, "text/html");
}

#[test]
fn empty_ingestion_returns_empty_json() {
    let mut st = Storage::new(StorageConfig::ObjectStore(Some(0)));
    let j = add_path_into_database(&mut st, "p", &Vec::new(), 0).unwrap();
    assert_eq!(j, Json::Array(vec![]));
}
