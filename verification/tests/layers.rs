use composefs_ops::layers::{fetch_schedule, layer_refs, LayerRefsError};
use composefs_ops::manifest::{Descriptor, ManifestLayer};

fn layer(digest: &str, size: u64, properties: &str) -> ManifestLayer {
    ManifestLayer {
        descriptor: Descriptor {
            media_type: "application/vnd.oci.image.layer.v1.tar".into(),
            digest: digest.into(),
            size,
        },
        properties: properties.into(),
    }
}

fn texts(list: &[&str]) -> Vec<String> {
    list.iter().map(|s| s.to_string()).collect()
}

#[test]
fn larger_layers_go_first() {
    let layers = [
        layer("sha256:a", 10, ""),
        layer("sha256:b", 30, ""),
        layer("sha256:c", 20, ""),
        layer("sha256:d", 30, ""),
        layer("sha256:e", 0, ""),
    ];
    let diff_ids = texts(&["A", "B", "C", "D", "E"]);
    let tasks = fetch_schedule(&layers, &diff_ids);
    let slots: Vec<usize> = tasks.iter().map(|t| t.slot).collect();
    // Of the two of the same size, the first stays first
    assert_eq!(slots, [1, 3, 2, 0, 4]);
    for task in &tasks {
        assert_eq!(task.layer_idx, task.slot);
        assert_eq!(task.diff_id, diff_ids[task.slot]);
        assert_eq!(task.descriptor.digest, layers[task.slot].descriptor.digest);
        assert_eq!(task.descriptor.size, layers[task.slot].descriptor.size);
        assert_eq!(task.descriptor.media_type, layers[task.slot].descriptor.media_type);
    }
}

#[test]
fn schedule_matches_a_stable_sort() {
    let sizes = [5u64, 9, 2, 9, 5, 5, 0, u64::MAX, 2];
    let layers: Vec<ManifestLayer> = sizes
        .iter()
        .enumerate()
        .map(|(i, size)| layer(&format!("sha256:{i}"), *size, ""))
        .collect();
    let diff_ids: Vec<String> = (0..sizes.len()).map(|i| format!("d{i}")).collect();
    let mut expected: Vec<usize> = (0..sizes.len()).collect();
    expected.sort_by_key(|i| std::cmp::Reverse(sizes[*i]));
    let slots: Vec<usize> =
        fetch_schedule(&layers, &diff_ids).iter().map(|t| t.slot).collect();
    assert_eq!(slots, expected);
}

#[test]
fn same_layers_share_their_index() {
    let layers = [
        layer("sha256:a", 10, "x"),
        layer("sha256:a", 10, "y"),
        layer("sha256:a", 10, "x"),
    ];
    let tasks = fetch_schedule(&layers, &texts(&["A", "B", "C"]));
    let indexes: Vec<(usize, usize)> = tasks.iter().map(|t| (t.slot, t.layer_idx)).collect();
    assert_eq!(indexes, [(0, 0), (1, 1), (2, 0)]);
}

#[test]
fn only_pairs_are_fetched() {
    let layers = [layer("sha256:a", 1, ""), layer("sha256:b", 2, "")];
    assert_eq!(fetch_schedule(&layers, &texts(&["A"])).len(), 1);
    assert_eq!(fetch_schedule(&layers[..1], &texts(&["A", "B"])).len(), 1);
    assert!(fetch_schedule(&layers, &[]).is_empty());
    assert!(fetch_schedule(&[], &texts(&["A"])).is_empty());
}

fn verities(list: &[(&str, u32)]) -> Vec<(String, u32)> {
    list.iter().map(|(k, v)| (k.to_string(), *v)).collect()
}

#[test]
fn refs_follow_the_diff_ids() {
    let diff_ids = texts(&["A", "B", "A"]);
    let found = verities(&[("B", 2), ("A", 1)]);
    assert_eq!(
        layer_refs(&diff_ids, &found, 3).unwrap(),
        verities(&[("A", 1), ("B", 2), ("A", 1)])
    );
    // The order in which layers finish does not matter
    let found = verities(&[("A", 1), ("B", 2)]);
    assert_eq!(
        layer_refs(&diff_ids, &found, 3).unwrap(),
        verities(&[("A", 1), ("B", 2), ("A", 1)])
    );
    // Later entries replace earlier ones
    let found = verities(&[("A", 1), ("B", 2), ("A", 7)]);
    assert_eq!(
        layer_refs(&diff_ids, &found, 3).unwrap(),
        verities(&[("A", 7), ("B", 2), ("A", 7)])
    );
}

#[test]
fn written_refs_are_read_back() {
    let diff_ids = texts(&["A", "B", "C"]);
    let found = verities(&[("C", 3), ("B", 2), ("A", 1)]);
    let refs = layer_refs(&diff_ids, &found, 3).unwrap();
    assert_eq!(layer_refs(&diff_ids, &refs, 3).unwrap(), refs);
}

#[test]
fn missing_layers_are_named() {
    let diff_ids = texts(&["A", "B", "C"]);
    let err = layer_refs(&diff_ids, &verities(&[("A", 1)]), 3).unwrap_err();
    assert_eq!(err.message(), "missing layer verity for diff_id B");
    assert!(matches!(err, LayerRefsError::Missing(d) if d == "B"));
    // A missing layer goes before a wrong number
    let err = layer_refs(&diff_ids, &verities(&[("A", 1)]), 2).unwrap_err();
    assert!(matches!(err, LayerRefsError::Missing(_)));
}

#[test]
fn layers_are_counted() {
    let found = verities(&[("A", 1), ("B", 2)]);
    let err = layer_refs(&texts(&["A", "B"]), &found, 13).unwrap_err();
    assert_eq!(err.message(), "expected 13 layer refs but got 2");
    assert!(matches!(err, LayerRefsError::Count { expected: 13, got: 2 }));
    assert!(layer_refs(&[], &found, 0).unwrap().is_empty());
}

#[test]
fn finished_schedules_miss_nothing() {
    let layers = [layer("sha256:a", 1, ""), layer("sha256:b", 2, "")];
    let diff_ids = texts(&["A", "B"]);
    let done: Vec<(String, usize)> = fetch_schedule(&layers, &diff_ids)
        .into_iter()
        .map(|t| (t.diff_id, t.slot))
        .collect();
    let refs = layer_refs(&diff_ids, &done, layers.len()).unwrap();
    assert_eq!(refs, vec![("A".to_string(), 0), ("B".to_string(), 1)]);
}
