use composefs_ops::duration::Duration;
use composefs_ops::fetch::{
    import_layer_blob, total_stats, verify_import, verify_read, AfterFailure, BlobFailure, ImportStats,
    Imported, LayerFetch, ObjectStoreMethod, ProgressEvent, Registration,
    OCI_BLOB_CONTENT_TYPE, OCI_CONFIG_CONTENT_TYPE, OCI_MANIFEST_CONTENT_TYPE,
    TAR_LAYER_CONTENT_TYPE,
};
use composefs_ops::retry::RetryPolicy;
use composefs_ops::transient::{Cause, ProxyAndImportError, ProxyError};

fn fast_retries() -> RetryPolicy {
    let mut policy = RetryPolicy::none();
    policy.max_retries = 2;
    policy
}

/// What one attempt at the layer does.
#[derive(Debug, Clone, Copy)]
enum Attempt {
    /// The request itself fails with this message.
    RequestFails(&'static str),
    /// The stream ends half way and the proxy reports the short read.
    Truncated,
    /// Full-length data with a flipped byte; the proxy reports the digest mismatch
    /// only after it has all been read.
    Corrupted,
    /// The stream ends half way, but the proxy claims success, so the failure is
    /// local and must not be retried.
    TruncatedUnnoticed,
    /// The complete, correct blob.
    Good,
}

const HTTP_503: &str = "reading blob: received unexpected HTTP status: 503 Service Unavailable";
const UNAUTHORIZED: &str = "reading blob: unauthorized: authentication required";
const SIZE: u64 = 4096;

fn proxy_failure(method: &str, msg: &str) -> ProxyError {
    ProxyError::RequestInitiationFailure { method: method.into(), error: msg.into() }
}

fn run_attempt(attempt: Attempt, tar: bool) -> Result<Registration<&'static str>, Vec<Cause>> {
    let imported = |id: &'static str| {
        if tar {
            Imported::Tar(id, ImportStats::default())
        } else {
            Imported::Blob(id, SIZE, ObjectStoreMethod::Copied)
        }
    };
    // A tar layer that ends half way cannot be imported; any other blob can.
    let half = || {
        if tar {
            Err("unexpected EOF in tar stream".to_string())
        } else {
            Ok(imported("half"))
        }
    };
    let (data, verdict) = match attempt {
        Attempt::RequestFails(msg) => {
            return Err(vec![Cause::Proxy(proxy_failure("GetBlob", msg))]);
        }
        Attempt::Truncated => (half(), Err("expected 4096 bytes in blob, got 2048")),
        Attempt::Corrupted => (
            Ok(imported("corrupted")),
            Err("corrupted blob, expecting sha256:abcd"),
        ),
        Attempt::TruncatedUnnoticed => (half(), Ok(())),
        Attempt::Good => (Ok(imported("good")), Ok(())),
    };
    let verdict = verdict.map_err(|e| proxy_failure("FinishPipe", e));
    import_layer_blob(data, verdict, SIZE).map_err(|failure| match failure {
        BlobFailure::Import(import) => vec![Cause::Other(import)],
        BlobFailure::Proxy(proxy) => vec![Cause::Proxy(proxy)],
        BlobFailure::Both { proxy, import } => {
            vec![Cause::ProxyAndImport(ProxyAndImportError { proxy, import })]
        }
    })
}

fn event_name(event: &ProgressEvent) -> &'static str {
    match event {
        ProgressEvent::Started { .. } => "started",
        ProgressEvent::Done { .. } => "done",
        ProgressEvent::Skipped { .. } => "skipped",
        ProgressEvent::Message(_) => "message",
    }
}

/// Fetches a layer following `script`, returning what is registered, the number of
/// fetches and the progress events.
fn fetch_scripted(
    policy: RetryPolicy,
    tar: bool,
    script: &[Attempt],
) -> (Option<&'static str>, usize, Vec<&'static str>) {
    let mut events = Vec::new();
    let mut calls = 0;
    let mut fetch = LayerFetch::new("sha256:layer".into(), SIZE, policy);
    loop {
        let (attempt, event) = fetch.start();
        events.push(event_name(&event));
        let step = script[calls];
        calls += 1;
        match run_attempt(step, tar) {
            Ok(registration) => {
                let (id, transferred) = match registration {
                    Registration::Stream { object_id, transferred, .. } => {
                        (object_id, transferred)
                    }
                    Registration::Reference { object_id, transferred, .. } => {
                        (object_id, transferred)
                    }
                };
                let (id, event) = attempt.succeeded(id, transferred);
                assert!(matches!(&event, ProgressEvent::Done { id, transferred }
                    if id == "sha256:layer" && *transferred == SIZE));
                events.push(event_name(&event));
                return (Some(id), calls, events);
            }
            Err(causes) => match attempt.failed(&causes) {
                AfterFailure::Stop { .. } => return (None, calls, events),
                AfterFailure::Again { fetch: next, number, exponential } => {
                    assert_eq!(number as usize, calls);
                    assert_eq!(exponential, Duration::zero());
                    fetch = next;
                }
            },
        }
    }
}

/// Fetches that fail according to a script, checking that only verified data is ever
/// registered.
#[test]
fn test_fetch_layer_retries() {
    // (tar, policy, script, expected success)
    type Case<'a> = (bool, RetryPolicy, &'a [Attempt], bool);
    let cases: &[Case] = &[
        (true, fast_retries(), &[Attempt::Good], true),
        (true, fast_retries(), &[Attempt::RequestFails(HTTP_503), Attempt::Good], true),
        (true, fast_retries(), &[Attempt::Truncated, Attempt::Good], true),
        (true, fast_retries(), &[Attempt::Corrupted, Attempt::Truncated, Attempt::Good], true),
        // Out of retries
        (true, fast_retries(), &[Attempt::Truncated, Attempt::Corrupted, Attempt::Truncated], false),
        // Permanent errors are not retried
        (true, fast_retries(), &[Attempt::RequestFails(UNAUTHORIZED)], false),
        // Nor are local failures to import verified data
        (true, fast_retries(), &[Attempt::TruncatedUnnoticed], false),
        // Retrying disabled
        (true, RetryPolicy::none(), &[Attempt::Corrupted], false),
        (true, RetryPolicy::none(), &[Attempt::Truncated], false),
        // Non-tar blobs take a different import path
        (false, fast_retries(), &[Attempt::Truncated, Attempt::Corrupted, Attempt::Good], true),
        (false, RetryPolicy::none(), &[Attempt::Corrupted], false),
    ];
    for (tar, policy, script, expected_ok) in cases {
        let ctx = format!("tar={tar} policy={policy:?} script={script:?}");
        let (registered, calls, events) = fetch_scripted(*policy, *tar, script);
        assert_eq!(calls, script.len(), "{ctx}");
        let mut expected_events = vec!["started"; script.len()];
        if *expected_ok {
            assert_eq!(registered, Some("good"), "{ctx}");
            expected_events.push("done");
        } else {
            // Data from failed attempts must never be registered
            assert_eq!(registered, None, "{ctx}");
        }
        // One `Started` per attempt, and `Done` only at the end of a success
        assert_eq!(events, expected_events, "{ctx}");
    }
}

#[test]
fn exhausted_fetches_say_so() {
    let mut fetch = LayerFetch::new("x".into(), 1, fast_retries());
    let causes = [Cause::Proxy(proxy_failure("GetBlob", HTTP_503))];
    for _ in 0..2 {
        fetch = match fetch.start().0.failed(&causes) {
            AfterFailure::Again { fetch, .. } => fetch,
            AfterFailure::Stop { .. } => panic!("stopped early"),
        };
    }
    match fetch.start().0.failed(&causes) {
        AfterFailure::Stop { context } => {
            assert_eq!(context.as_deref(), Some("Giving up after 2 retries"))
        }
        AfterFailure::Again { .. } => panic!("went on"),
    }
}

#[test]
fn attempts_start_with_their_size() {
    let fetch = LayerFetch::new("sha256:x".into(), 77, RetryPolicy::default());
    let (_, event) = fetch.start();
    assert!(matches!(&event, ProgressEvent::Started { id, total: 77 } if id == "sha256:x"));
}

#[test]
fn imports_count_only_when_verified() {
    type R = Result<u8, BlobFailure<&'static str, &'static str>>;
    let join: fn(Result<u8, &'static str>, Result<(), &'static str>) -> R = verify_import;
    assert!(matches!(join(Ok(1), Ok(())), Ok(1)));
    assert!(matches!(join(Err("i"), Ok(())), Err(BlobFailure::Import("i"))));
    assert!(matches!(join(Ok(1), Err("p")), Err(BlobFailure::Proxy("p"))));
    assert!(matches!(
        join(Err("i"), Err("p")),
        Err(BlobFailure::Both { proxy: "p", import: "i" })
    ));
    let read: fn(Result<u8, &'static str>, Result<(), &'static str>) -> R = verify_read;
    assert!(matches!(read(Ok(1), Ok(())), Ok(1)));
    assert!(matches!(read(Err("i"), Ok(())), Err(BlobFailure::Import("i"))));
    assert!(matches!(read(Ok(1), Err("p")), Err(BlobFailure::Proxy("p"))));
    assert!(matches!(read(Err("i"), Err("p")), Err(BlobFailure::Proxy("p"))));
}

#[test]
fn registrations_follow_the_import() {
    let mut stats = ImportStats::default();
    stats.objects_copied = 3;
    match import_layer_blob::<_, (), ()>(Ok(Imported::Tar("t", stats)), Ok(()), 99) {
        Ok(Registration::Stream { object_id: "t", stats: s, transferred: 99 }) => {
            assert_eq!(s, stats)
        }
        other => panic!("{other:?}"),
    }
    let blob = |method| {
        match import_layer_blob::<_, (), ()>(Ok(Imported::Blob("b", 5, method)), Ok(()), 99) {
            Ok(Registration::Reference {
                content_type: OCI_BLOB_CONTENT_TYPE,
                object_id: "b",
                size: 5,
                stats,
                transferred: 5,
            }) => stats,
            other => panic!("{other:?}"),
        }
    };
    let mut copied = ImportStats::default();
    copied.objects_copied = 1;
    copied.bytes_copied = 5;
    assert_eq!(blob(ObjectStoreMethod::Copied), copied);
    let mut reflinked = ImportStats::default();
    reflinked.objects_reflinked = 1;
    reflinked.bytes_reflinked = 5;
    assert_eq!(blob(ObjectStoreMethod::Reflinked), reflinked);
    let mut hardlinked = ImportStats::default();
    hardlinked.objects_hardlinked = 1;
    hardlinked.bytes_hardlinked = 5;
    assert_eq!(blob(ObjectStoreMethod::Hardlinked), hardlinked);
    let mut present = ImportStats::default();
    present.objects_already_present = 1;
    assert_eq!(blob(ObjectStoreMethod::AlreadyPresent), present);
}

#[test]
fn stats_are_summed() {
    let mut a = ImportStats::default();
    a.objects_copied = 1;
    a.bytes_copied = 10;
    a.objects_already_present = u64::MAX;
    let mut b = ImportStats::default();
    b.objects_copied = 2;
    b.bytes_reflinked = 7;
    let sum = a.merge(&b).unwrap();
    assert_eq!(sum.objects_copied, 3);
    assert_eq!(sum.bytes_copied, 10);
    assert_eq!(sum.bytes_reflinked, 7);
    assert_eq!(sum.objects_already_present, u64::MAX);
    b.objects_already_present = 1;
    assert_eq!(a.merge(&b), None);
    assert_eq!(a.merge(&ImportStats::default()), Some(a));
}

#[test]
fn totals_do_not_depend_on_the_order() {
    let mut a = ImportStats::default();
    a.objects_copied = 1;
    a.bytes_copied = 10;
    let mut b = ImportStats::default();
    b.objects_copied = 2;
    b.bytes_hardlinked = 5;
    let mut c = ImportStats::default();
    c.bytes_copied = u64::MAX - 10;
    assert_eq!(total_stats(&[]), Some(ImportStats::default()));
    let sum = total_stats(&[a, b, c]).unwrap();
    assert_eq!(sum.objects_copied, 3);
    assert_eq!(sum.bytes_copied, u64::MAX);
    assert_eq!(sum.bytes_hardlinked, 5);
    assert_eq!(total_stats(&[c, b, a]), Some(sum));
    assert_eq!(total_stats(&[a, c, a]), None);
}

#[test]
fn content_types_are_letters() {
    assert_eq!(TAR_LAYER_CONTENT_TYPE, u64::from_le_bytes(*b"ocilayer"));
    assert_eq!(OCI_CONFIG_CONTENT_TYPE, u64::from_le_bytes(*b"ociconfg"));
    assert_eq!(OCI_MANIFEST_CONTENT_TYPE, u64::from_le_bytes(*b"ocimanif"));
    assert_eq!(OCI_BLOB_CONTENT_TYPE, u64::from_le_bytes(*b"oci_blob"));
}
