use composefs_ops::transient::{
    both_failed_message, is_server_error, is_transient, is_transient_lowercase,
    is_transient_message, is_transient_proxy_error, is_truncated_blob, Cause, GetBlobError, ProxyAndImportError,
    ProxyError,
};

/// An error as the proxy reports most failures.
fn msg(text: &str) -> Vec<Cause> {
    vec![Cause::Proxy(ProxyError::RequestInitiationFailure {
        method: "GetBlob".into(),
        error: text.into(),
    })]
}

fn proxy(err: ProxyError) -> Vec<Cause> {
    vec![Cause::Proxy(err)]
}

fn context(causes: Vec<Cause>, text: &str) -> Vec<Cause> {
    let mut all = vec![Cause::Other(text.into())];
    all.extend(causes);
    all
}

fn both(proxy: &str, import: &str) -> Vec<Cause> {
    vec![Cause::ProxyAndImport(ProxyAndImportError {
        proxy: ProxyError::RequestReturned(proxy.into()),
        import: import.into(),
    })]
}

#[test]
fn test_is_transient() {
    let cases = [
        // Messages as produced by skopeo's proxy for real-world failures
        (
            msg(
                "reading blob sha256:abcd: fetching blob: received unexpected HTTP status: 503 Service Unavailable",
            ),
            true,
        ),
        (
            msg("received unexpected HTTP status: 502 Bad Gateway"),
            true,
        ),
        (
            msg(
                "pinging container registry quay.io: Get \"https://quay.io/v2/\": dial tcp 1.2.3.4:443: i/o timeout",
            ),
            true,
        ),
        (
            msg("read tcp 1.2.3.4:5->6.7.8.9:443: read: connection reset by peer"),
            true,
        ),
        (msg("unexpected EOF"), true),
        (
            msg("pinging container registry quay.io: Get \"https://quay.io/v2/\": EOF"),
            true,
        ),
        (msg("http2: client connection lost"), true),
        (msg("expected 1234 bytes in blob, got 1000"), true),
        (msg("corrupted blob, expecting sha256:abcd"), true),
        (msg("toomanyrequests: rate limit exceeded"), true),
        (msg("reading manifest: too many requests to registry"), true),
        (
            proxy(ProxyError::RequestReturned(
                "Get \"https://quay.io/v2/\": net/http: TLS handshake timeout".into(),
            )),
            true,
        ),
        (
            proxy(ProxyError::BlobError(GetBlobError::Retryable(
                "something".into(),
            ))),
            true,
        ),
        // Transient cause wrapped in context
        (
            context(msg("connection refused"), "Failed to import layer sha256:abcd"),
            true,
        ),
        // Both the proxy and the import failed: the proxy decides
        (
            context(
                both("unexpected EOF", "unexpected EOF in tar stream"),
                "Fetching layer sha256:abcd",
            ),
            true,
        ),
        (both("manifest unknown", "unexpected EOF in tar stream"), false),
        // Permanent failures
        (msg("reading blob: EOF is not a valid digest"), false),
        (msg("received unexpected HTTP status: 404 Not Found"), false),
        (
            msg(
                "reading manifest latest in quay.io/foo/bar: unauthorized: access to the requested resource is not authorized",
            ),
            false,
        ),
        (msg("manifest unknown"), false),
        (msg("expected layer media type"), false),
        (
            proxy(ProxyError::BlobError(GetBlobError::Other(
                "something".into(),
            ))),
            false,
        ),
        (proxy(ProxyError::Local("i/o error: skopeo exited".into())), false),
        (
            proxy(ProxyError::Local(
                "skopeo proxy unexpectedly exited: connection reset by peer".into(),
            )),
            false,
        ),
        // Local errors are never retried, whatever they say
        (vec![Cause::Other("unexpected EOF in tar stream".into())], false),
        (
            context(
                vec![Cause::Other("connection reset by peer".into())],
                "Importing layer",
            ),
            false,
        ),
    ];
    for (err, expected) in cases {
        assert_eq!(is_transient(&err), expected, "{err:?}");
    }
}

#[test]
fn every_pattern_is_transient() {
    let patterns = [
        "received unexpected http status: 500",
        "received unexpected http status: 502",
        "received unexpected http status: 503",
        "received unexpected http status: 504",
        "too many requests",
        "statuscode: 429",
        "toomanyrequests",
        "connection reset by peer",
        "connection refused",
        "connection timed out",
        "i/o timeout",
        "tls handshake timeout",
        "client.timeout exceeded",
        "timeout awaiting response headers",
        "network is unreachable",
        "network is down",
        "no route to host",
        "host is down",
        "software caused connection abort",
        "temporary failure in name resolution",
        "server misbehaving",
        "http2: server sent goaway",
        "http2: client connection lost",
        "stream error: stream id",
        "server closed idle connection",
        "unexpected eof",
    ];
    for pattern in patterns {
        assert!(is_transient_lowercase(pattern), "{pattern}");
        assert!(is_transient_message(&pattern.to_uppercase()), "{pattern}");
        assert!(is_transient_message(&format!("context: {pattern}, more")), "{pattern}");
        assert!(!is_transient_message(&pattern[1..]), "{pattern}");
    }
}

#[test]
fn lowercase_is_not_lowered_again() {
    assert!(!is_transient_lowercase("Unexpected EOF"));
    assert!(is_transient_message("Unexpected EOF"));
}

#[test]
fn closed_connections_end_the_message() {
    assert!(is_transient_message("Get \"https://quay.io/v2/\": EOF"));
    assert!(is_transient_message("Get \"https://quay.io/v2/\": EOF \n\t\u{3000}"));
    assert!(!is_transient_message("Get: EOF."));
    assert!(!is_transient_message("EOF"));
    assert!(!is_transient_message(""));
}

#[test]
fn non_ascii_messages_are_lowered_too() {
    assert!(is_transient_message("ÄÖÜ: CONNECTION REFUSED"));
}

#[test]
fn truncated_blobs() {
    assert!(is_truncated_blob("expected 1 bytes in blob, got 0"));
    assert!(is_truncated_blob("x: corrupted blob, expecting y"));
    assert!(!is_truncated_blob("expected 1 bytes"));
    assert!(!is_truncated_blob(" bytes in blob, got 0"));
    assert!(!is_truncated_blob("Expected 1 Bytes in blob"));
}

#[test]
fn proxy_errors_by_variant() {
    let failed = |error: &str| ProxyError::RequestInitiationFailure {
        method: "connection refused".into(),
        error: error.into(),
    };
    assert!(is_transient_proxy_error(&failed("connection refused")));
    // The method is not looked at
    assert!(!is_transient_proxy_error(&failed("denied")));
    assert!(!is_transient_proxy_error(&ProxyError::BlobError(
        GetBlobError::Other("connection refused".into())
    )));
}

#[test]
fn context_on_either_side_does_not_matter() {
    let mut causes = context(msg("unexpected EOF"), "outer");
    causes.push(Cause::Other("inner".into()));
    assert!(is_transient(&causes));
    let mut causes = context(msg("denied"), "outer");
    causes.push(Cause::Other("unexpected EOF".into()));
    assert!(!is_transient(&causes));
    assert!(!is_transient(&[]));
}

#[test]
fn both_failures_are_told() {
    assert_eq!(
        both_failed_message("proxy request returned error: x", "tar: short read"),
        "proxy request returned error: x; the import also failed: tar: short read"
    );
}

#[test]
fn every_server_error_is_transient() {
    for status in ["500 Internal Server Error", "501 Not Implemented", "505", "511", "599"] {
        let text = format!("reading blob: received unexpected HTTP status: {status}");
        assert!(is_transient_message(&text), "{status}");
        assert!(is_transient(&msg(&text)), "{status}");
    }
    for status in ["400 Bad Request", "401 Unauthorized", "404 Not Found", "418", "200 OK", "5"] {
        let text = format!("reading blob: received unexpected HTTP status: {status}");
        assert!(!is_transient_message(&text), "{status}");
    }
}

#[test]
fn a_status_has_three_digits() {
    assert!(!is_transient_message("received unexpected HTTP status: 5"));
    assert!(!is_transient_message("received unexpected HTTP status: 5 retries left"));
    assert!(!is_transient_message("received unexpected HTTP status: 50"));
    assert!(!is_transient_message("received unexpected HTTP status: 600"));
    for status in 500..600 {
        let text = format!("received unexpected http status: {status}");
        assert!(is_server_error(&text) && is_transient_lowercase(&text), "{status}");
    }
    assert!(!is_server_error("received unexpected http status: 499"));
}

#[test]
fn case_prefix_and_white_space_do_not_make_permanent() {
    let messages = [
        "received unexpected HTTP status: 501 Not Implemented",
        "expected 1234 bytes in blob, got 1000",
        "Get \"https://quay.io/v2/\": EOF",
        "dial tcp: connection refused",
    ];
    for message in messages {
        assert!(is_transient_message(message), "{message}");
        assert!(is_transient_message(&message.to_ascii_uppercase()), "{message}");
        assert!(is_transient_message(&format!("copying: {message}")), "{message}");
        assert!(is_transient_message(&format!("{message}\n\t ")), "{message}");
    }
    let permanent = "manifest unknown";
    assert!(!is_transient_message(permanent));
    assert!(!is_transient_message(&permanent.to_ascii_uppercase()));
}
