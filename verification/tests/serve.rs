use local_images_server::server::{boot, NotFoundReason, Request, Response};

fn listing(entries: &[(&str, Vec<u8>)]) -> Vec<(String, Vec<u8>)> {
    entries.iter().map(|(n, b)| (n.to_string(), b.clone())).collect()
}

fn image_request(file: &str) -> Request {
    Request::Image { commit: "anything".to_string(), file: file.to_string() }
}

fn deterministic_bytes(len: usize) -> Vec<u8> {
    (0..len).map(|i| (i.wrapping_mul(31) % 256) as u8).collect()
}

#[test]
fn alpine_scenario() {
    let data = deterministic_bytes(1 << 20);
    let files = listing(&[("alpine.qcow2", data.clone())]);
    let server = boot(&files).unwrap();

    match server.handle(&image_request("alpine.qcow2.sha256")) {
        Response::OkText(h) => {
            let expected = hex::encode(<sha2::Sha256 as sha2::Digest>::digest(&data));
            assert_eq!(h, expected);
        }
        other => panic!("expected the content hash, got {:?}", other),
    }

    match server.handle(&image_request("alpine.qcow2.zst")) {
        Response::OkBytes(artifact) => {
            assert_ne!(artifact, data);
            let restored = zstd::stream::decode_all(artifact.as_slice()).unwrap();
            assert_eq!(restored, data);
        }
        other => panic!("expected the artifact bytes, got {:?}", other),
    }

    let resp = server.handle(&image_request("alpine.raw"));
    assert_eq!(resp, Response::NotFound(NotFoundReason::UnknownExtension));
    assert_eq!(resp.status(), 404);
}

#[test]
fn empty_directory() {
    let files = listing(&[]);
    let server = boot(&files).unwrap();

    for file in ["alpine.qcow2.zst", "x.qcow2.sha256", "y.whatever"] {
        let resp = server.handle(&image_request(file));
        assert_eq!(resp, Response::NotFound(NotFoundReason::ImageNotFound));
        assert_eq!(
            NotFoundReason::ImageNotFound.message(),
            "image not found".to_string()
        );
    }

    match server.handle(&Request::Root) {
        Response::OkText(msg) => assert_eq!(msg, "local-images-server is running"),
        other => panic!("expected the root confirmation, got {:?}", other),
    }
    match server.handle(&Request::Latest) {
        Response::OkText(token) => {
            assert_eq!(token.len(), 64);
            assert!(token.chars().all(|c| c.is_ascii_hexdigit() && !c.is_uppercase()));
        }
        other => panic!("expected the version token, got {:?}", other),
    }
}

#[test]
fn latest_is_constant_within_a_process() {
    let files = listing(&[("a.qcow2", b"some raw image".to_vec())]);
    let server = boot(&files).unwrap();
    let first = server.handle(&Request::Latest);
    let second = server.handle(&Request::Latest);
    assert_eq!(first, second);
}

#[test]
fn latest_differs_between_server_starts() {
    let files = listing(&[]);
    let one = boot(&files).unwrap();
    let two = boot(&files).unwrap();
    let t1 = one.handle(&Request::Latest);
    let t2 = two.handle(&Request::Latest);
    assert_ne!(t1, t2);
}

#[test]
fn absent_name_is_image_not_found_for_any_extension() {
    let files = listing(&[("alpine.qcow2", b"raw".to_vec())]);
    let server = boot(&files).unwrap();
    for file in ["missing.qcow2.zst", "missing.qcow2.sha256", "missing.weird"] {
        let resp = server.handle(&image_request(file));
        assert_eq!(resp, Response::NotFound(NotFoundReason::ImageNotFound));
    }
}

#[test]
fn unknown_and_missing_extensions() {
    let files = listing(&[("alpine.qcow2", b"raw".to_vec())]);
    let server = boot(&files).unwrap();

    let resp = server.handle(&image_request("alpine.tar.gz"));
    assert_eq!(resp, Response::NotFound(NotFoundReason::UnknownExtension));
    assert_eq!(
        NotFoundReason::UnknownExtension.message(),
        "unknown file extension".to_string()
    );

    let resp = server.handle(&image_request("alpine"));
    assert_eq!(resp, Response::NotFound(NotFoundReason::MissingExtension));
    assert_eq!(
        NotFoundReason::MissingExtension.message(),
        "missing file extension".to_string()
    );
}

#[test]
fn repeated_requests_are_byte_identical() {
    let data = deterministic_bytes(50_000);
    let files = listing(&[("img.qcow2", data)]);
    let server = boot(&files).unwrap();
    let first = server.handle(&image_request("img.qcow2.zst"));
    for _ in 0..3 {
        assert_eq!(server.handle(&image_request("img.qcow2.zst")), first);
    }
    let h1 = server.handle(&image_request("img.qcow2.sha256"));
    assert_eq!(server.handle(&image_request("img.qcow2.sha256")), h1);
}

#[test]
fn artifact_decompresses_to_source() {
    let data = b"a tiny raw disk image, highly compressible aaaaaaaaaaaaaaaa".to_vec();
    let files = listing(&[("tiny.qcow2", data.clone())]);
    let server = boot(&files).unwrap();
    match server.handle(&image_request("tiny.qcow2.zst")) {
        Response::OkBytes(artifact) => {
            let restored = zstd::stream::decode_all(artifact.as_slice()).unwrap();
            assert_eq!(restored, data);
        }
        other => panic!("expected the artifact bytes, got {:?}", other),
    }
}

#[test]
fn the_commit_segment_is_ignored() {
    let files = listing(&[("alpine.qcow2", b"raw".to_vec())]);
    let server = boot(&files).unwrap();
    let a = server.handle(&Request::Image {
        commit: "aaaa".to_string(),
        file: "alpine.qcow2.sha256".to_string(),
    });
    let b = server.handle(&Request::Image {
        commit: "bbbb".to_string(),
        file: "alpine.qcow2.sha256".to_string(),
    });
    assert_eq!(a, b);
    assert!(matches!(a, Response::OkText(_)));
}

#[test]
fn unicode_image_names_are_served() {
    let files = listing(&[("imag\u{00e9}.qcow2", b"raw bytes".to_vec())]);
    let server = boot(&files).unwrap();
    let resp = server.handle(&image_request("imag\u{00e9}.qcow2.zst"));
    assert!(matches!(resp, Response::OkBytes(_)));
}
