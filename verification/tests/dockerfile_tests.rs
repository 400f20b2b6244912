use devbox::dockerfile::{
    base_image, compose_dockerfile, compress_context, copy_sources, dockerfile_path, resolve_source,
    starts_at_root,
};
use devbox::model::Build;
use std::io::Read;

#[test]
fn base_image_lines() {
    let feats = vec!["RUN a".to_string(), "RUN b".to_string()];
    assert_eq!(base_image("ubuntu:22.04", Some(&feats)), "FROM ubuntu:22.04\nRUN a\nRUN b");
    assert_eq!(base_image("ubuntu", None), "FROM ubuntu\n");
    assert_eq!(base_image("ubuntu", Some(&Vec::new())), "FROM ubuntu\n");
}

#[test]
fn dockerfile_paths() {
    let rel = Build { dockerfile: "Dockerfile".to_string(), context: Some("ctx/".to_string()) };
    assert_eq!(dockerfile_path(&rel, "/work/proj/"), "/work/proj/../ctx/Dockerfile");
    let abs = Build { dockerfile: "Dockerfile".to_string(), context: Some("/srv/app//".to_string()) };
    assert_eq!(dockerfile_path(&abs, "/work/proj"), "/srv/app/Dockerfile");
    let none = Build { dockerfile: "Dockerfile".to_string(), context: None };
    assert_eq!(dockerfile_path(&none, "/work/proj"), "/work/proj/.././Dockerfile");
    assert!(starts_at_root("/x"));
    assert!(!starts_at_root("x"));
    assert!(!starts_at_root(""));
}

#[test]
fn composes_on_project_dockerfile() {
    let out = compose_dockerfile("FROM base\nRUN feat", "FROM ubuntu\nRUN apt-get update\nCOPY a /a\n");
    assert_eq!(out, "FROM base\nRUN feat\nRUN apt-get update\nCOPY a /a");
}

#[test]
fn finds_copy_sources() {
    let text = "FROM ubuntu\nCOPY a.txt conf/ /dst/\nRUN echo hi\nCOPY --chown=1 /abs/file /x\n";
    assert_eq!(
        copy_sources(text),
        Some(vec!["a.txt".to_string(), "conf/".to_string(), "/abs/file".to_string()])
    );
    assert_eq!(copy_sources("FROM ubuntu\nRUN true\n"), Some(Vec::new()));
    assert_eq!(copy_sources("COPY"), None);
}

#[test]
fn resolves_sources() {
    assert_eq!(resolve_source("/abs/file", "/w/Dockerfile").as_deref(), Some("/abs/file"));
    assert_eq!(resolve_source("a.txt", "/w/p/../ctx/Dockerfile").as_deref(), Some("/w/p/../ctx/a.txt"));
    assert_eq!(resolve_source("a.txt", "/"), None);
}

#[test]
fn compressed_context_inflates_back() {
    let data: Vec<u8> = b"Dockerfile contents".to_vec();
    let out = compress_context(&data);
    assert_eq!(&out[..2], &[0x1f, 0x8b]);
    assert_ne!(out, data);
    let mut back = Vec::new();
    flate2::read::GzDecoder::new(&out[..]).read_to_end(&mut back).unwrap();
    assert_eq!(back, data);
}
