use local_images_server::image::{image_name_of, PreparedImage};
use local_images_server::server::split_first_dot;
use local_images_server::store::build_store;

#[test]
fn derived_names_strip_the_qcow2_suffix() {
    assert_eq!(image_name_of(&"alpine.qcow2".to_string()), Some("alpine".to_string()));
    assert_eq!(image_name_of(&"a.b.qcow2".to_string()), Some("a.b".to_string()));
    assert_eq!(image_name_of(&"x.qcow2".to_string()), Some("x".to_string()));
}

#[test]
fn ineligible_file_names_are_skipped() {
    assert_eq!(image_name_of(&"notes.txt".to_string()), None);
    assert_eq!(image_name_of(&".qcow2".to_string()), None);
    assert_eq!(image_name_of(&"qcow2".to_string()), None);
    assert_eq!(image_name_of(&"image.qcow2.bak".to_string()), None);
    assert_eq!(image_name_of(&"".to_string()), None);
}

#[test]
fn the_builder_skips_non_images() {
    let files = vec![
        ("notes.txt".to_string(), b"not an image".to_vec()),
        (".qcow2".to_string(), b"hidden".to_vec()),
        ("ok.qcow2".to_string(), b"a real image".to_vec()),
    ];
    let store = build_store(&files).unwrap();
    assert!(store.lookup(&"ok".to_string()).is_some());
    assert!(store.lookup(&"notes".to_string()).is_none());
    assert!(store.lookup(&"notes.txt".to_string()).is_none());
    assert!(store.lookup(&"".to_string()).is_none());
}

#[test]
fn duplicate_names_let_the_later_file_win() {
    let first = b"the earlier image".to_vec();
    let second = b"the later image".to_vec();
    let files = vec![
        ("dup.qcow2".to_string(), first),
        ("dup.qcow2".to_string(), second.clone()),
    ];
    let store = build_store(&files).unwrap();
    let img = store.lookup(&"dup".to_string()).unwrap();
    let expected = hex::encode(<sha2::Sha256 as sha2::Digest>::digest(&second));
    assert_eq!(img.hash_string(), expected);
}

#[test]
fn preparation_hashes_known_values() {
    let img = PreparedImage::prepare("a".to_string(), &b"abc".to_vec()).unwrap();
    assert_eq!(
        img.hash_string(),
        "ba7816bf8f01cfea414140de5dae2223b00361a396177a9cb410ff61f20015ad"
    );

    let empty = PreparedImage::prepare("e".to_string(), &Vec::new()).unwrap();
    assert_eq!(
        empty.hash_string(),
        "e3b0c44298fc1c149afbf4c8996fb92427ae41e4649b934ca495991b7852b855"
    );
}

#[test]
fn preparation_compresses_reversibly() {
    let data: Vec<u8> = (0..100_000u32).map(|i| (i % 7) as u8).collect();
    let img = PreparedImage::prepare("img".to_string(), &data).unwrap();
    let artifact = img.artifact_bytes();
    assert!(artifact.len() < data.len());
    assert_eq!(zstd::stream::decode_all(artifact.as_slice()).unwrap(), data);
}

#[test]
fn file_names_split_on_the_first_dot() {
    assert_eq!(
        split_first_dot("alpine.qcow2.zst"),
        Some(("alpine".to_string(), "qcow2.zst".to_string()))
    );
    assert_eq!(split_first_dot("a.b.c"), Some(("a".to_string(), "b.c".to_string())));
    assert_eq!(split_first_dot(".x"), Some(("".to_string(), "x".to_string())));
    assert_eq!(split_first_dot("abc"), None);
    assert_eq!(split_first_dot(""), None);
}
