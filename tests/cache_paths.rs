use boulder::cache::{
    asset_path, asset_paths, digest_hex, download_path, fetch_target, index_entries,
    cached_download, completed_download, Download, Error, IndexEntry, Installation, Meta,
    PayloadHeader, PayloadKind, Progress, UnpackPlan,
};

fn installation() -> Installation {
    Installation { root: "/root".to_string() }
}

fn meta(uri: Option<&str>, hash: Option<&str>) -> Meta {
    Meta {
        id: "pkg".to_string(),
        uri: uri.map(String::from),
        hash: hash.map(String::from),
        download_size: Some(100),
    }
}

#[test]
fn sharded_asset_path() {
    let p = asset_path(&installation(), "abcdef0123456789");
    assert_eq!(p.directory, "/root/assets/v2/ab/cd/ef");
    assert_eq!(p.file, "/root/assets/v2/ab/cd/ef/abcdef0123456789");
}

#[test]
fn flat_asset_path_for_short_hash() {
    let p = asset_path(&installation(), "abcdef012");
    assert_eq!(p.directory, "/root/assets/v2");
    assert_eq!(p.file, "/root/assets/v2/abcdef012");
}

#[test]
fn download_path_layout() {
    let p = download_path(&installation(), "abcdefgh1234").unwrap();
    assert_eq!(p.directory, "/root/cache/downloads/v1/abcde/h1234");
    assert_eq!(p.file, "/root/cache/downloads/v1/abcde/h1234/abcdefgh1234");
}

#[test]
fn download_path_five_characters() {
    let p = download_path(&installation(), "abcde").unwrap();
    assert_eq!(p.file, "/root/cache/downloads/v1/abcde/abcde/abcde");
}

#[test]
fn download_path_malformed_hash() {
    for h in ["", "a", "abcd"] {
        match download_path(&installation(), h) {
            Err(Error::MalformedHash(m)) => assert_eq!(m, h),
            other => panic!("unexpected {other:?}"),
        }
    }
}

#[test]
fn digest_hex_formats() {
    assert_eq!(digest_hex(0), "00");
    assert_eq!(digest_hex(0xa), "0a");
    assert_eq!(digest_hex(0xff), "ff");
    assert_eq!(digest_hex(0x1234abcd), "1234abcd");
    assert_eq!(digest_hex(u128::MAX), "f".repeat(32));
}

#[test]
fn fetch_target_errors() {
    let inst = installation();
    assert!(matches!(fetch_target(&meta(None, Some("abcdef")), &inst), Err(Error::MissingUri)));
    assert!(matches!(
        fetch_target(&meta(Some("not a url"), Some("abcdef")), &inst),
        Err(Error::InvalidUrl(_))
    ));
    assert!(matches!(
        fetch_target(&meta(Some("https://example.com/p.stone"), None), &inst),
        Err(Error::MissingHash)
    ));
    assert!(matches!(
        fetch_target(&meta(Some("https://example.com/p.stone"), Some("abc")), &inst),
        Err(Error::MalformedHash(_))
    ));
}

#[test]
fn fetch_target_ok() {
    let t = fetch_target(&meta(Some("https://example.com/p.stone"), Some("abcdefgh1234")), &installation())
        .unwrap();
    assert_eq!(t.url.as_str(), "https://example.com/p.stone");
    assert_eq!(t.path.file, "/root/cache/downloads/v1/abcde/h1234/abcdefgh1234");
}

#[test]
fn cached_download_skips_network() {
    let inst = installation();
    let m = meta(Some("https://example.com/p.stone"), Some("abcdefgh1234"));
    let t = fetch_target(&m, &inst).unwrap();
    let d = cached_download(&m, &inst, &t, true).unwrap();
    assert!(d.was_cached);
    assert_eq!(d.path, t.path.file);
    assert!(cached_download(&m, &inst, &t, false).is_none());
    let d = completed_download(&m, &inst, &t);
    assert!(!d.was_cached);
    assert_eq!(d.id, "pkg");
}

#[test]
fn progress_totals() {
    assert_eq!(
        Progress::after_chunk(10, 5, Some(100)),
        Progress { delta: 5, completed: 15, total: 100 }
    );
    assert_eq!(Progress::after_chunk(10, 5, None), Progress { delta: 5, completed: 15, total: 15 });
}

fn payloads() -> Vec<PayloadKind> {
    vec![
        PayloadKind::Meta,
        PayloadKind::Index(vec![
            IndexEntry { start: 0, end: 4, digest: 0xabcdef0123456789 },
            IndexEntry { start: 4, end: 10, digest: 0x5 },
        ]),
        PayloadKind::Layout,
        PayloadKind::Content(PayloadHeader { plain_size: 10, stored_size: 8 }),
        PayloadKind::Index(vec![IndexEntry { start: 10, end: 10, digest: 0x10 }]),
    ]
}

fn download(was_cached: bool) -> Download {
    Download { id: "pkg".to_string(), path: "/x".to_string(), installation: installation(), was_cached }
}

#[test]
fn index_entries_in_order() {
    let e = index_entries(&payloads());
    assert_eq!(e.len(), 3);
    assert_eq!(e[0].digest, 0xabcdef0123456789);
    assert_eq!(e[2].start, 10);
    let paths = asset_paths(&installation(), &e);
    assert_eq!(paths[0].file, "/root/assets/v2/ab/cd/ef/abcdef0123456789");
    assert_eq!(paths[1].file, "/root/assets/v2/05");
}

#[test]
fn unpack_reuses_existing_assets() {
    assert!(matches!(download(true).unpack_plan(&payloads(), true), Ok(UnpackPlan::Reuse)));
}

#[test]
fn unpack_extracts_when_not_cached() {
    match download(false).unpack_plan(&payloads(), true) {
        Ok(UnpackPlan::Extract { content, plain_size, content_path, copies }) => {
            assert_eq!(content, 3);
            assert_eq!(plain_size, 10);
            assert_eq!(content_path.file, "/root/cache/content/pkg");
            assert_eq!(copies.len(), 3);
            assert_eq!(copies[1].start, 4);
            assert_eq!(copies[1].len, 6);
            assert_eq!(copies[2].path.file, "/root/assets/v2/10");
        }
        other => panic!("unexpected {other:?}"),
    }
    assert!(matches!(download(true).unpack_plan(&payloads(), false), Ok(UnpackPlan::Extract { .. })));
}

#[test]
fn unpack_missing_content() {
    let p = vec![PayloadKind::Meta, PayloadKind::Index(vec![])];
    assert!(matches!(download(false).unpack_plan(&p, false), Err(Error::MissingContent)));
}

#[test]
fn unpack_malformed_index() {
    let p = vec![
        PayloadKind::Content(PayloadHeader { plain_size: 1, stored_size: 1 }),
        PayloadKind::Index(vec![IndexEntry { start: 5, end: 2, digest: 1 }]),
    ];
    assert!(matches!(download(false).unpack_plan(&p, false), Err(Error::MalformedIndex)));
}
