use libcrun_shim::image::{
    auth_token_url, bearer_header, blob_url, check_digest, get_registry_url, hex_lower,
    image_info_from_config, image_info_from_config_text, pull_reference, manifest_doc_from_text, auth_token_from_text, layer_file_name, manifest_total_size, manifest_url,
    parse_manifest, parse_rfc3339_timestamp, plan_pull, progress_chunk, progress_complete,
    progress_extracting, progress_found, progress_layer, progress_started, rfc3339_fields,
    rfc3339_timestamp_fits, short_image_id, strip_sha256, verify_blob, finish_blob, next_pull_stage, BlobHasher, ImageCatalog, PullStage,
    ImageConfigFields, ImageInfo, ImageReference, ManifestDoc, ManifestLayer, ManifestPlatform,
};
use libcrun_shim::ShimError;

fn runtime_message(e: &ShimError) -> String {
    match e {
        ShimError::Runtime { message, context: None } => message.clone(),
        other => panic!("unexpected error {:?}", other),
    }
}

#[test]
fn reference_forms() {
    let r = ImageReference::parse("localhost:5000/team/app:1.2").unwrap();
    assert_eq!(r.registry, "localhost:5000");
    assert_eq!(r.repository, "team/app");
    assert_eq!(r.reference, "1.2");

    let r = ImageReference::parse("user/repo").unwrap();
    assert_eq!(r.registry, "docker.io");
    assert_eq!(r.repository, "user/repo");
    assert_eq!(r.reference, "latest");

    let r = ImageReference::parse("alpine@sha256:abcdef").unwrap();
    assert_eq!(r.registry, "docker.io");
    assert_eq!(r.repository, "library/alpine");
    assert_eq!(r.reference, "sha256:abcdef");
    assert_eq!(r.full_name(), "docker.io/library/alpine@sha256:abcdef");

    let r = ImageReference::parse("localhost/x").unwrap();
    assert_eq!(r.registry, "localhost");
    assert_eq!(r.repository, "x");

    assert!(ImageReference::parse("").is_none());
    assert!(ImageReference::parse("alpine:").is_none());
    assert!(ImageReference::parse(":tag").is_none());
    assert!(ImageReference::parse("ghcr.io/").is_none());
}

#[test]
fn full_name_reads_back() {
    for s in ["alpine", "alpine:3.18", "ghcr.io/user/repo:v1.0", "localhost:5000/a/b", "x@sha256:00"] {
        let r = ImageReference::parse(s).unwrap();
        let again = ImageReference::parse(&r.full_name()).unwrap();
        assert_eq!(again.registry, r.registry);
        assert_eq!(again.repository, r.repository);
        assert_eq!(again.reference, r.reference);
    }
    let r = ImageReference::parse("alpine:3.18").unwrap();
    assert_eq!(r.full_name(), "docker.io/library/alpine:3.18");
}

#[test]
fn registry_addresses() {
    assert_eq!(get_registry_url("docker.io"), "https://registry-1.docker.io");
    assert_eq!(get_registry_url("http://local:5000"), "http://local:5000");
    assert_eq!(get_registry_url("https://ghcr.io"), "https://ghcr.io");
    assert_eq!(get_registry_url("ghcr.io"), "https://ghcr.io");

    let r = ImageReference::parse("alpine:3.18").unwrap();
    assert_eq!(manifest_url(&r), "https://registry-1.docker.io/v2/library/alpine/manifests/3.18");
    assert_eq!(blob_url(&r, "sha256:aa"), "https://registry-1.docker.io/v2/library/alpine/blobs/sha256:aa");
    assert_eq!(
        auth_token_url(&r).unwrap(),
        "https://auth.docker.io/token?service=registry.docker.io&scope=repository:library/alpine:pull"
    );
    let g = ImageReference::parse("ghcr.io/user/repo:v1").unwrap();
    assert!(auth_token_url(&g).is_none());
    assert_eq!(manifest_url(&g), "https://ghcr.io/v2/user/repo/manifests/v1");
    assert_eq!(bearer_header("tok"), "Bearer tok");
}

#[test]
fn timestamps() {
    assert_eq!(parse_rfc3339_timestamp("2024-01-15T10:30:00Z"), Some(1704240000));
    assert_eq!(parse_rfc3339_timestamp("1970-01-01T00:00:00Z"), Some(86400));
    assert_eq!(parse_rfc3339_timestamp("2024-01-15"), None);
    assert_eq!(parse_rfc3339_timestamp("2024-01T10:00:00Z"), None);
    assert_eq!(parse_rfc3339_timestamp("2024-x-01-15T1"), Some(1704240000));
    assert_eq!(rfc3339_fields("2023-06-30T00:00:00Z"), Some((2023, 6, 30)));
    assert!(rfc3339_timestamp_fits("2024-01-15T10:30:00Z"));
    assert!(!rfc3339_timestamp_fits("1969-12-31T00:00:00Z"));
    assert!(!rfc3339_timestamp_fits("2024-00-10T00:00:00Z"));
    assert!(!rfc3339_timestamp_fits("2200-01-01T00:00:00Z"));
    assert!(rfc3339_timestamp_fits("not a date"));
}

#[test]
fn ids_and_layer_files() {
    let d = "sha256:0123456789abcdef0123456789abcdef";
    assert_eq!(short_image_id(d), "0123456789ab");
    assert_eq!(short_image_id("abcdefabcdef99"), "abcdefabcdef");
    assert_eq!(strip_sha256("sha256:abcsha256:def"), "abcdef");
    assert_eq!(strip_sha256("plain"), "plain");
    assert_eq!(layer_file_name(d), "0123456789ab.tar.gz");
}

#[test]
fn digests() {
    let abc = "sha256:ba7816bf8f01cfea414140de5dae2223b00361a396177a9cb410ff61f20015ad";
    assert!(verify_blob(b"abc", abc).is_ok());
    let e = verify_blob(b"abd", abc).unwrap_err();
    let m = runtime_message(&e);
    assert!(m.starts_with(&format!("Digest mismatch: expected {}, got sha256:", abc)));
    assert_eq!(m.len(), "Digest mismatch: expected , got ".len() + abc.len() * 2);
    assert_eq!(hex_lower(&[0x00, 0x0f, 0xa0, 0xff]), "000fa0ff");
    assert!(check_digest(&[0xab], "sha256:ab").is_ok());
    assert_eq!(
        runtime_message(&check_digest(&[0xab], "sha256:AB").unwrap_err()),
        "Digest mismatch: expected sha256:AB, got sha256:ab"
    );
}

fn layer(d: &str, size: Option<u64>) -> ManifestLayer {
    ManifestLayer { digest: Some(d.to_string()), size }
}

#[test]
fn manifests() {
    let list = ManifestDoc {
        manifests: Some(vec![
            ManifestPlatform { os: Some("windows".to_string()), architecture: Some("amd64".to_string()) },
            ManifestPlatform { os: Some("linux".to_string()), architecture: Some("arm64".to_string()) },
        ]),
        config_digest: None,
        layers: None,
    };
    assert_eq!(
        runtime_message(&parse_manifest(&list).unwrap_err()),
        "Manifest list detected - fetch specific architecture manifest"
    );

    let no_config = ManifestDoc { manifests: None, config_digest: None, layers: Some(vec![]) };
    assert_eq!(runtime_message(&parse_manifest(&no_config).unwrap_err()), "Missing config digest in manifest");

    let no_layers = ManifestDoc { manifests: None, config_digest: Some("sha256:c".to_string()), layers: None };
    assert_eq!(runtime_message(&parse_manifest(&no_layers).unwrap_err()), "Missing layers in manifest");

    let doc = ManifestDoc {
        manifests: Some(vec![ManifestPlatform { os: Some("linux".to_string()), architecture: Some("s390x".to_string()) }]),
        config_digest: Some("sha256:cfg".to_string()),
        layers: Some(vec![
            layer("sha256:a", Some(10)),
            ManifestLayer { digest: None, size: Some(99) },
            layer("sha256:b", None),
            layer("sha256:c", Some(5)),
        ]),
    };
    assert_eq!(manifest_total_size(&doc), Some(15));
    let (config, layers, total) = parse_manifest(&doc).unwrap();
    assert_eq!(config, "sha256:cfg");
    assert_eq!(
        layers,
        vec![("sha256:a".to_string(), 10), ("sha256:b".to_string(), 0), ("sha256:c".to_string(), 5)]
    );
    assert_eq!(total, 15);

    let huge = ManifestDoc {
        manifests: None,
        config_digest: Some("sha256:cfg".to_string()),
        layers: Some(vec![layer("sha256:a", Some(u64::MAX)), layer("sha256:b", Some(1))]),
    };
    assert_eq!(manifest_total_size(&huge), None);
}

#[test]
fn pull_plans() {
    let layers = vec![
        ("sha256:1111111111111111".to_string(), 100),
        ("sha256:2222222222222222".to_string(), 50),
        ("sha256:3333333333333333".to_string(), 7),
    ];
    let plan = plan_pull("sha256:cccccccccccccccccccc", &layers).unwrap();
    assert_eq!(plan.image_id, "cccccccccccc");
    assert_eq!(plan.config_digest, "sha256:cccccccccccccccccccc");
    assert_eq!(plan.total_size, 157);
    assert_eq!(plan.layers.len(), 3);
    assert_eq!(plan.layers[0].file_name, "111111111111.tar.gz");
    assert_eq!(plan.layers[0].downloaded_before, 0);
    assert_eq!(plan.layers[1].downloaded_before, 100);
    assert_eq!(plan.layers[2].downloaded_before, 150);
    assert_eq!(plan.layers[2].digest, "sha256:3333333333333333");
    assert_eq!(plan.layers[2].size, 7);

    assert!(plan_pull("sha256:short", &layers).is_none());
    assert!(plan_pull("sha256:cccccccccccccccccccc", &vec![("sha256:abc".to_string(), 1)]).is_none());
    assert!(plan_pull("0123456789ab", &vec![]).is_some());
}

#[test]
fn progress_reports() {
    let p = progress_started("docker.io");
    assert_eq!(p.status, "Pulling from docker.io");
    assert_eq!((p.total_layers, p.completed_layers, p.downloaded_bytes, p.total_bytes), (0, 0, 0, 0));

    let p = progress_found(3, 1000);
    assert_eq!(p.status, "Found 3 layers");
    assert_eq!((p.total_layers, p.total_bytes), (3, 1000));

    let p = progress_layer("sha256:a", 1, 3, 400, 1000);
    assert_eq!(p.status, "Downloading layer 2/3");
    assert_eq!(p.current_layer, "sha256:a");
    assert_eq!((p.completed_layers, p.downloaded_bytes), (1, 400));

    let p = progress_chunk("sha256:a", 400, 25, 1000);
    assert_eq!(p.status, "Downloading");
    assert_eq!(p.downloaded_bytes, 425);
    assert_eq!((p.total_layers, p.completed_layers), (0, 0));

    let p = progress_extracting(3, 1000);
    assert_eq!(p.status, "Extracting layers");
    assert_eq!((p.completed_layers, p.downloaded_bytes), (3, 1000));

    let p = progress_complete(3, 1000);
    assert_eq!(p.status, "Pull complete");
}

fn info(id: &str, size: u64) -> ImageInfo {
    let fields = ImageConfigFields { architecture: None, os: None, created: None, labels: None };
    image_info_from_config(ImageReference::parse("alpine").unwrap(), id.to_string(), size, &fields)
}

#[test]
fn image_metadata() {
    let fields = ImageConfigFields {
        architecture: Some("arm64".to_string()),
        os: None,
        created: Some("2024-01-15T10:30:00Z".to_string()),
        labels: Some(vec![
            ("a".to_string(), Some("1".to_string())),
            ("b".to_string(), None),
            ("c".to_string(), Some("3".to_string())),
        ]),
    };
    let i = image_info_from_config(ImageReference::parse("nginx").unwrap(), "id1".to_string(), 42, &fields);
    assert_eq!(i.architecture, "arm64");
    assert_eq!(i.os, "linux");
    assert_eq!(i.created, 1704240000);
    assert_eq!(i.size, 42);
    assert_eq!(i.labels, vec![("a".to_string(), "1".to_string()), ("c".to_string(), "3".to_string())]);

    let plain = info("id2", 1);
    assert_eq!(plain.architecture, "amd64");
    assert_eq!(plain.created, 0);
    assert!(plain.labels.is_empty());
}

#[test]
fn catalog_keeps_one_image_per_id() {
    let mut c = ImageCatalog::new();
    c.insert(info("a", 1));
    c.insert(info("b", 2));
    c.insert(info("a", 3));
    assert_eq!(c.len(), 2);
    assert_eq!(c.get("a").unwrap().size, 3);
    let ids: Vec<String> = c.list().into_iter().map(|i| i.id).collect();
    assert_eq!(ids, vec!["a".to_string(), "b".to_string()]);
    assert_eq!(c.remove("a").unwrap().size, 3);
    assert!(c.get("a").is_none());
    assert!(c.remove("a").is_none());
    assert_eq!(c.len(), 1);
}

#[test]
fn blob_hashed_in_chunks() {
    let abc = "sha256:ba7816bf8f01cfea414140de5dae2223b00361a396177a9cb410ff61f20015ad";
    let mut h = BlobHasher::new();
    h.update(b"a");
    h.update(b"bc");
    assert!(finish_blob(h, abc).is_ok());
    let mut h = BlobHasher::new();
    h.update(b"ab");
    h.update(b"d");
    let m = runtime_message(&finish_blob(h, abc).unwrap_err());
    assert!(m.starts_with(&format!("Digest mismatch: expected {}, got sha256:", abc)));
    let mut h = BlobHasher::new();
    h.update(b"abc");
    assert_eq!(h.finish().len(), 32);
}

fn run_pull_stages(layers: usize, rootfs_exists: bool) -> Vec<PullStage> {
    let mut seen = vec![PullStage::Started];
    let mut stage = next_pull_stage(PullStage::Started, layers, rootfs_exists);
    while let Some(s) = stage {
        seen.push(s);
        stage = next_pull_stage(s, layers, rootfs_exists);
    }
    seen
}

#[test]
fn pull_stage_order() {
    assert_eq!(
        run_pull_stages(2, false),
        vec![
            PullStage::Started,
            PullStage::Found,
            PullStage::Layer(0),
            PullStage::Layer(1),
            PullStage::Extracting,
            PullStage::Complete,
        ]
    );
    assert_eq!(run_pull_stages(1, true), vec![PullStage::Started, PullStage::Found, PullStage::Layer(0), PullStage::Complete]);
    assert_eq!(run_pull_stages(0, true), vec![PullStage::Started, PullStage::Found, PullStage::Complete]);
    assert_eq!(next_pull_stage(PullStage::Layer(7), 3, false), Some(PullStage::Extracting));
    assert_eq!(next_pull_stage(PullStage::Complete, 3, false), None);
}

#[test]
fn image_metadata_from_config_text() {
    let text = r#"{"architecture":"arm64","created":"2024-01-15T10:30:00Z","config":{"Labels":{"a":"1","b":2,"c":"3"}}}"#;
    let i = image_info_from_config_text(ImageReference::parse("nginx").unwrap(), "id1".to_string(), 42, text)
        .unwrap()
        .unwrap();
    assert_eq!(i.architecture, "arm64");
    assert_eq!(i.os, "linux");
    assert_eq!(i.created, 1704240000);
    assert_eq!(i.labels, vec![("a".to_string(), "1".to_string()), ("c".to_string(), "3".to_string())]);
    let e = image_info_from_config_text(ImageReference::parse("nginx").unwrap(), "id1".to_string(), 1, "{oops")
        .unwrap()
        .unwrap_err();
    assert!(matches!(e, ShimError::Serialization { context: Some(ref c), .. } if c == "JSON parsing error"));
    let late = r#"{"created":"2200-01-01T00:00:00Z"}"#;
    assert!(image_info_from_config_text(ImageReference::parse("nginx").unwrap(), "x".to_string(), 1, late).is_none());
    let bare = image_info_from_config_text(ImageReference::parse("nginx").unwrap(), "x".to_string(), 1, "[]")
        .unwrap()
        .unwrap();
    assert_eq!((bare.architecture.as_str(), bare.os.as_str(), bare.created), ("amd64", "linux", 0));
}

#[test]
fn pull_references() {
    assert_eq!(pull_reference("alpine:3.18").unwrap().reference, "3.18");
    match pull_reference("") {
        Err(ShimError::Validation { field, message }) => {
            assert_eq!(field, "reference");
            assert_eq!(message, "Invalid image reference: ");
        }
        other => panic!("unexpected {:?}", other.map(|r| r.reference)),
    }
}

#[test]
fn manifest_and_token_texts() {
    let text = r#"{"config":{"digest":"sha256:abc"},"layers":[{"digest":"sha256:l1","size":10},{"size":"x"}]}"#;
    let d = manifest_doc_from_text(text).unwrap();
    assert_eq!(d.config_digest.as_deref(), Some("sha256:abc"));
    let layers = d.layers.unwrap();
    assert_eq!((layers[0].digest.as_deref(), layers[0].size), (Some("sha256:l1"), Some(10)));
    assert_eq!((layers[1].digest.as_deref(), layers[1].size), (None, None));
    assert!(d.manifests.is_none());
    assert!(runtime_message(&manifest_doc_from_text("<html>").unwrap_err()).starts_with("Failed to parse manifest: "));
    assert_eq!(auth_token_from_text(r#"{"token":"t0k"}"#).unwrap().as_deref(), Some("t0k"));
    assert_eq!(auth_token_from_text(r#"{"access_token":"t"}"#).unwrap(), None);
    assert!(runtime_message(&auth_token_from_text("nope").unwrap_err()).starts_with("Failed to parse auth response: "));
}
