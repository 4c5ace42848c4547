use composefs_ops::fetch::{ImportStats, ProgressEvent};
use composefs_ops::layers::LayerRefsError;
use composefs_ops::manifest::{
    is_delta_artifact, parse_digest, Descriptor, Manifest, ManifestError, ManifestLayer,
};
use composefs_ops::pull::{
    cached_config, fetched_config, manifest_step, pull_read, reads_directly, request_pull,
    tag_for_manifest, ConfigStep, ConfigWithLayers, ImageOp, LayerAction, ManifestStep, Notice,
    OciLayoutKind, PullResult, PullStep,
};
use composefs_ops::reference::{ImageReference, Transport};
use composefs_ops::retry::RetryPolicy;

const SHA: &str = "sha256:6c3c624b58dbbcd3c0dd82b4c53f04194d1247c6eebdaab7c610cf7d66709b3b";

fn reference(transport: Transport, name: &str) -> ImageReference {
    ImageReference { transport, name: name.into() }
}

#[test]
fn references_are_parsed() {
    let cases = [
        ("docker://quay.io/example/image:tag", Transport::Registry, "quay.io/example/image:tag"),
        ("registry:quay.io/x", Transport::Registry, "quay.io/x"),
        ("oci:/path:tag", Transport::OciDir, "/path:tag"),
        ("oci-archive:/a.tar", Transport::OciArchive, "/a.tar"),
        ("docker-archive:/a.tar", Transport::DockerArchive, "/a.tar"),
        ("containers-storage:localhost/x", Transport::ContainerStorage, "localhost/x"),
        ("dir:/d", Transport::Dir, "/d"),
        ("docker-daemon:x", Transport::DockerDaemon, "x"),
    ];
    for (text, transport, name) in cases {
        let parsed = ImageReference::parse(text).unwrap();
        assert_eq!(parsed.transport, transport, "{text}");
        assert_eq!(parsed.name, name, "{text}");
    }
    let refused = [
        ("quay.io/x", "Missing ':' in quay.io/x"),
        ("ftp:x", "Invalid transport: ftp"),
        ("docker:x", "Missing // in docker:// in docker:x"),
        ("docker://", "Invalid empty name in docker://"),
        ("oci:", "Invalid empty name in oci:"),
        (":x", "Invalid transport: "),
        ("", "Missing ':' in "),
    ];
    for (text, message) in refused {
        assert_eq!(ImageReference::parse(text).unwrap_err(), message, "{text}");
    }
}

#[test]
fn layouts_may_be_read_directly() {
    let layout = |text: &str| request_pull(text, None).unwrap().layout;
    assert_eq!(layout("oci:/d"), Some(OciLayoutKind::Directory));
    assert_eq!(layout("oci-archive:/a"), Some(OciLayoutKind::Archive));
    assert_eq!(layout("docker://x"), None);
    assert_eq!(layout("docker-archive:/a"), None);
    assert_eq!(request_pull("nothing", None).unwrap_err(), "Missing ':' in nothing");

    assert!(reads_directly(OciLayoutKind::Directory, true, false));
    assert!(reads_directly(OciLayoutKind::Directory, false, false));
    assert!(reads_directly(OciLayoutKind::Archive, true, true));
    // A path that does not exist stays on the direct way
    assert!(reads_directly(OciLayoutKind::Archive, false, false));
    assert!(!reads_directly(OciLayoutKind::Archive, true, false));
}

#[test]
fn pulls_retry_as_asked() {
    let retry = |asked| request_pull("docker://x", asked).unwrap().retry;
    assert_eq!(retry(None), RetryPolicy::default());
    assert_eq!(retry(Some(RetryPolicy::none())), RetryPolicy::none());
    let policy = RetryPolicy::with_max_retries(7);
    assert_eq!(retry(Some(policy)), policy);
}

#[test]
fn manifests_are_tagged_unless_an_image_was_made() {
    assert_eq!(tag_for_manifest(false, Some("x".into())), Some("x".into()));
    assert_eq!(tag_for_manifest(true, Some("x".into())), None);
    assert_eq!(tag_for_manifest(false, None), None);
}

#[test]
fn only_a_registry_is_retried() {
    let all = [
        Transport::OciDir,
        Transport::OciArchive,
        Transport::DockerArchive,
        Transport::ContainerStorage,
        Transport::Dir,
        Transport::DockerDaemon,
    ];
    for transport in all {
        let (op, _) =
            ImageOp::new(reference(transport, "x"), true, false, RetryPolicy::default());
        assert_eq!(op.retry, RetryPolicy::none(), "{transport:?}");
        assert_eq!(op.transport, transport);
    }
    let policy = RetryPolicy::with_max_retries(9);
    let (op, open) = ImageOp::new(reference(Transport::Registry, "sha256:x"), false, false, policy);
    assert_eq!(op.retry, policy);
    assert_eq!(open.image_ref.name, "sha256:x");
    assert_eq!(open.skopeo_cmd, None);
}

#[test]
fn container_storage_runs_in_its_namespace() {
    let new = |name: &str, is_root, has_command| {
        let image = reference(Transport::ContainerStorage, name);
        ImageOp::new(image, is_root, has_command, RetryPolicy::default()).1
    };
    let open = new("sha256:abc", false, false);
    assert_eq!(open.image_ref.name, "abc");
    assert_eq!(open.image_ref.transport, Transport::ContainerStorage);
    let command: Vec<String> = ["podman", "unshare", "skopeo"].map(String::from).into();
    assert_eq!(open.skopeo_cmd, Some(command));
    assert_eq!(new("x", true, false).skopeo_cmd, None);
    assert_eq!(new("x", false, true).skopeo_cmd, None);
    assert_eq!(new("localhost/sha256:abc", true, false).image_ref.name, "localhost/sha256:abc");
    assert_eq!(new("sha256:", true, false).image_ref.name, "");
}

fn op(transport: Transport) -> ImageOp {
    ImageOp::new(reference(transport, "x"), true, false, RetryPolicy::default()).0
}

fn descriptor(digest: &str) -> Descriptor {
    Descriptor { media_type: "m".into(), digest: digest.into(), size: 5 }
}

#[test]
fn layers_that_are_there_are_skipped() {
    let d = descriptor("sha256:l");
    match op(Transport::ContainerStorage).ensure_layer(Some(7u8), "sha256:d", &d, None, 0) {
        Ok(LayerAction::Skip { layer: 7, stats, event: ProgressEvent::Skipped { id } }) => {
            assert_eq!(id, "sha256:d");
            assert_eq!(stats, ImportStats::default());
        }
        other => panic!("{other:?}"),
    }
}

#[test]
fn layers_are_fetched_by_their_descriptor() {
    let d = descriptor("sha256:l");
    let fetch = |transport, info: Option<&Vec<Descriptor>>, idx| {
        match op(transport).ensure_layer(None::<u8>, "sha256:d", &d, info, idx) {
            Ok(LayerAction::Fetch(d)) => Ok(d.digest),
            Ok(other) => panic!("{other:?}"),
            Err(message) => Err(message),
        }
    };
    assert_eq!(fetch(Transport::Registry, None, 0).unwrap(), "sha256:l");
    let info = vec![descriptor("sha256:u0"), descriptor("sha256:u1")];
    assert_eq!(fetch(Transport::Dir, Some(&info), 1).unwrap(), "sha256:l");
    assert_eq!(fetch(Transport::ContainerStorage, Some(&info), 1).unwrap(), "sha256:u1");
    assert_eq!(
        fetch(Transport::ContainerStorage, None, 0).unwrap_err(),
        "Failed to get uncompressed layer info"
    );
    assert_eq!(
        fetch(Transport::ContainerStorage, Some(&info), 12).unwrap_err(),
        "Failed to get uncompressed layer info for layer index 12. Total layers: 2"
    );
}

#[test]
fn configs_are_read_or_fetched() {
    let op = op(Transport::Registry);
    match op.config_step("sha256:c", Some(4u8)) {
        ConfigStep::Read { config_id: 4, event: ProgressEvent::Message(m) } => {
            assert_eq!(m, "Already have container config sha256:c")
        }
        other => panic!("{other:?}"),
    }
    match op.config_step("sha256:c", None::<u8>) {
        ConfigStep::Fetch { what, event: ProgressEvent::Message(m) } => {
            assert_eq!(what, "Fetching config sha256:c");
            assert_eq!(m, what);
        }
        other => panic!("{other:?}"),
    }
}

fn layer(digest: &str, size: u64) -> ManifestLayer {
    let mut d = descriptor(digest);
    d.size = size;
    ManifestLayer { descriptor: d, properties: String::new() }
}

#[test]
fn layers_are_planned() {
    let layers = [layer("sha256:a", 1), layer("sha256:b", 2)];
    let diff_ids = ["A".to_string(), "B".to_string()];
    let plan = op(Transport::Registry).plan_layers(&layers, &diff_ids);
    assert!(!plan.wants_layer_info);
    let order: Vec<String> = plan.tasks.into_iter().map(|t| t.diff_id).collect();
    assert_eq!(order, ["B", "A"]);
    assert!(op(Transport::ContainerStorage).plan_layers(&layers, &diff_ids).wants_layer_info);
}

#[test]
fn configs_are_put_together() {
    let config = descriptor("sha256:c");
    let diff_ids = ["A".to_string(), "B".to_string()];
    let streams = [("B".to_string(), 2u8), ("A".to_string(), 1u8)];
    let cached = cached_config(&config, 2, 9u8, &diff_ids, &streams).unwrap();
    assert_eq!(cached.config_digest, "sha256:c");
    assert_eq!(cached.config_verity, 9);
    assert_eq!(cached.layer_refs, [("A".to_string(), 1), ("B".to_string(), 2)]);
    assert_eq!(cached.stats, ImportStats::default());

    let mut stats = ImportStats::default();
    stats.bytes_copied = 3;
    let written = fetched_config(&config, 2, &diff_ids, &streams, stats).unwrap().written(8);
    assert_eq!(written.config_digest, "sha256:c");
    assert_eq!(written.config_verity, 8);
    assert_eq!(written.layer_refs, cached.layer_refs);
    assert_eq!(written.stats, stats);

    // What was written is given back, in the same order
    let again = cached_config(&config, 2, 8, &diff_ids, &written.layer_refs).unwrap();
    assert_eq!(again.config_digest, written.config_digest);
    assert_eq!(again.config_verity, written.config_verity);
    assert_eq!(again.layer_refs, written.layer_refs);
    assert_eq!(again.stats, ImportStats::default());

    assert!(matches!(
        cached_config(&config, 3, 9, &diff_ids, &streams),
        Err(LayerRefsError::Count { expected: 3, got: 2 })
    ));
    assert!(matches!(
        fetched_config(&config, 2, &diff_ids, &streams[..1], stats),
        Err(LayerRefsError::Missing(d)) if d == "A"
    ));
}

fn stored() -> ConfigWithLayers<u8> {
    ConfigWithLayers {
        config_digest: "sha256:c".into(),
        config_verity: 1,
        layer_refs: vec![("A".into(), 2), ("B".into(), 3)],
        stats: ImportStats::default(),
    }
}

#[test]
fn manifests_refer_to_config_and_layers() {
    match manifest_step("sha256:m", "sha256:c", &stored(), None) {
        ManifestStep::Store { named_refs, event: ProgressEvent::Message(m) } => {
            assert_eq!(m, "Storing manifest sha256:m");
            assert_eq!(
                named_refs,
                [
                    ("config:sha256:c".to_string(), 1),
                    ("A".to_string(), 2),
                    ("B".to_string(), 3)
                ]
            );
        }
        other => panic!("{other:?}"),
    }
    match manifest_step("sha256:m", "sha256:c", &stored(), Some(6)) {
        ManifestStep::Have { manifest_verity: 6, event: ProgressEvent::Message(m) } => {
            assert_eq!(m, "Already have manifest sha256:m")
        }
        other => panic!("{other:?}"),
    }
}

#[test]
fn pulls_give_manifest_and_config() {
    let (result, stats) = stored().pulled("sha256:m".into(), 5);
    assert_eq!(stats, ImportStats::default());
    assert_eq!(result.clone().into_config(), ("sha256:c".to_string(), 1));
    let result = PullResult {
        manifest_digest: "sha256:m".to_string(),
        manifest_verity: 5,
        config_digest: "sha256:c".to_string(),
        config_verity: 1,
    };
    assert_eq!(result.into_manifest(), ("sha256:m".to_string(), 5));
}

#[test]
fn notices_name_the_digest() {
    assert_eq!(Notice::FetchingLayer.about("sha256:x"), "Fetching layer sha256:x");
    assert_eq!(Notice::FetchingBlob.about("sha256:x"), "Fetching blob sha256:x");
}

#[test]
fn digests_are_checked() {
    let hex = |n: usize| "a".repeat(n);
    let good = [
        SHA.to_string(),
        format!("sha384:{}", hex(96)),
        format!("sha512:{}", hex(128)),
        "multihash+base58:QmRZxt2b1FVZPNqd8hsiykDL3TdBDeTSPX9Kv46HmX4Gx8".to_string(),
        "a.b_c-d+e:=_-Z9".to_string(),
    ];
    for text in good {
        assert_eq!(parse_digest(text.clone()), Ok(text));
    }
    let bad = [
        String::new(),
        "sha256".to_string(),
        ":abc".to_string(),
        "sha256:".to_string(),
        format!("sha256:{}", hex(63)),
        format!("sha384:{}", hex(64)),
        format!("sha512:{}", hex(96)),
        format!("sha256:{}", hex(64).to_uppercase()),
        "Sha1:abc".to_string(),
        "a+:abc".to_string(),
        "+a:abc".to_string(),
        "a++b:abc".to_string(),
        "x:a b".to_string(),
        "x:a:b".to_string(),
    ];
    for text in bad {
        assert!(parse_digest(text.clone()).is_err(), "{text}");
    }
    assert_eq!(parse_digest("sha256".into()).unwrap_err(), "missing ':' in digest");
}

const DELTA: &str = "application/vnd.io.github.containers.oci-delta.v1";

fn manifest_json(artifact_type: Option<&str>) -> String {
    let artifact = match artifact_type {
        Some(t) => format!("\"artifactType\":\"{t}\","),
        None => String::new(),
    };
    format!(
        "{{\"schemaVersion\":2,{artifact}\
         \"config\":{{\"mediaType\":\"application/vnd.oci.image.config.v1+json\",\
         \"digest\":\"{SHA}\",\"size\":2}},\
         \"layers\":[{{\"mediaType\":\"application/vnd.oci.image.layer.v1.tar+gzip\",\
         \"digest\":\"{SHA}\",\"size\":30,\"annotations\":{{\"b\":\"2\",\"a\":\"1\"}}}},\
         {{\"mediaType\":\"x/y\",\"digest\":\"{SHA}\",\"size\":4}}]}}"
    )
}

#[test]
fn manifests_are_read() {
    let manifest = Manifest::read(manifest_json(None).as_bytes()).unwrap();
    assert_eq!(manifest.artifact_type, None);
    assert_eq!(manifest.config.media_type, "application/vnd.oci.image.config.v1+json");
    assert_eq!(manifest.config.digest, SHA);
    assert_eq!(manifest.config.size, 2);
    assert_eq!(manifest.layers.len(), 2);
    let first = &manifest.layers[0];
    assert_eq!(
        first.descriptor.media_type,
        "application/vnd.oci.image.layer.v1.tar+gzip"
    );
    assert_eq!(first.descriptor.digest, SHA);
    assert_eq!(first.descriptor.size, 30);
    assert_eq!(manifest.layers[1].descriptor.media_type, "x/y");
    // Optional properties are part of a layer, in an order that does not vary
    assert_ne!(first.properties, manifest.layers[1].properties);
    for _ in 0..20 {
        let again = Manifest::read(manifest_json(None).as_bytes()).unwrap();
        assert_eq!(again.layers[0].properties, first.properties);
    }
    assert!(Manifest::read(b"{}").is_err());
    assert_eq!(
        Manifest::read(b"nonsense").unwrap_err(),
        "serde failed: expected ident at line 1 column 2"
    );
}

#[test]
fn delta_artifacts_are_recognised() {
    for artifact_type in [None, Some(DELTA), Some("application/vnd.example")] {
        let json = manifest_json(artifact_type);
        let manifest = Manifest::read(json.as_bytes()).unwrap();
        let outside =
            containers_image_proxy::oci_spec::image::ImageManifest::from_reader(json.as_bytes())
                .unwrap();
        assert_eq!(is_delta_artifact(&manifest), artifact_type == Some(DELTA));
        assert_eq!(is_delta_artifact(&manifest), oci_delta::is_delta_artifact(&outside));
    }
}

#[test]
fn pulls_go_on_from_the_manifest() {
    let op = op(Transport::Registry);
    match op.pull(SHA.into(), manifest_json(None).as_bytes()) {
        Ok(PullStep::Image { fetched }) => {
            assert_eq!(fetched.digest, SHA);
            assert!(!fetched.delta);
            assert_eq!(fetched.manifest.layers.len(), 2);
        }
        other => panic!("{other:?}"),
    }
    match op.pull(SHA.into(), manifest_json(Some(DELTA)).as_bytes()) {
        Ok(PullStep::Delta { fetched, event: ProgressEvent::Message(m), concurrency: 2 }) => {
            assert!(fetched.delta);
            assert_eq!(m, "Detected delta artifact...");
        }
        other => panic!("{other:?}"),
    }
    assert!(matches!(
        op.pull(SHA.into(), b"nonsense"),
        Err(ManifestError::Manifest(m)) if m.starts_with("serde failed: ")
    ));
    // The digest is looked at first
    assert!(matches!(
        op.pull("nonsense".into(), b"nonsense"),
        Err(ManifestError::Digest(_))
    ));
    assert!(matches!(
        pull_read(SHA.into(), Err("no".into())),
        Err(ManifestError::Manifest(m)) if m == "no"
    ));
}
