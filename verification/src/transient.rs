//! Telling transient failures of the image proxy from permanent ones.
//!
//! Most errors of the proxy only arrive as the text of a message, so this is
//! necessarily a heuristic on that text.

use vstd::prelude::*;

use crate::text::{append_decimal, contains, ends_with, to_lowercase, trim_end};
#[allow(unused_imports)]
use crate::text::{
    ascii_lower, ascii_text, ascii_upper, decimal, has_text, is_white_space, lower_text, lowercased,
    trimmed_end,
};

verus! {

/// Lowercase parts of messages that point to a transient network or registry
/// failure: rate limiting, and network-level failures. HTTP 5xx responses are told
/// apart by [`server_error`], truncated or corrupted transfers by [`truncated_blob`].
pub open spec fn transient_patterns() -> Seq<Seq<char>> {
    seq![
        "too many requests"@,
        "statuscode: 429"@,
        "toomanyrequests"@,
        "connection reset by peer"@,
        "connection refused"@,
        "connection timed out"@,
        "i/o timeout"@,
        "tls handshake timeout"@,
        "client.timeout exceeded"@,
        "timeout awaiting response headers"@,
        "network is unreachable"@,
        "network is down"@,
        "no route to host"@,
        "host is down"@,
        "software caused connection abort"@,
        "temporary failure in name resolution"@,
        "server misbehaving"@,
        "http2: server sent goaway"@,
        "http2: client connection lost"@,
        "stream error: stream id"@,
        "server closed idle connection"@,
        "unexpected eof"@,
    ]
}

/// Whether a message reports a short read of a blob
/// (`expected N bytes in blob, got M`) or a digest mismatch
/// (`corrupted blob, expecting <digest>`).
pub open spec fn truncated_blob(msg: Seq<char>) -> bool {
    ||| has_text(msg, "expected "@) && has_text(msg, " bytes in blob, got "@)
    ||| has_text(msg, "corrupted blob, expecting "@)
}

/// How a lowercase message names an HTTP status.
pub open spec fn status_text(status: nat) -> Seq<char> {
    "received unexpected http status: "@ + decimal(status)
}

/// Whether a lowercase message names an HTTP 5xx status.
pub open spec fn server_error(msg: Seq<char>) -> bool {
    exists|status: nat| 500 <= status < 600 && has_text(msg, #[trigger] status_text(status))
}

/// Whether a lowercase message describes a transient failure.
pub open spec fn transient_lowercase(msg: Seq<char>) -> bool {
    ||| truncated_blob(msg)
    ||| server_error(msg)
    ||| exists|i: int|
        0 <= i < transient_patterns().len() && has_text(msg, #[trigger] transient_patterns()[i])
    ||| (": eof"@).is_suffix_of(trimmed_end(msg))
}

/// Whether a message describes a transient failure, whatever its case.
pub open spec fn transient_message(msg: Seq<char>) -> bool {
    transient_lowercase(lower_text(msg))
}

fn transient_error_patterns() -> (patterns: [&'static str; 22])
    ensures
        transient_patterns().len() == 22,
        forall|i: int| 0 <= i < 22 ==> (#[trigger] patterns@[i])@ == transient_patterns()[i],
{
    [
        "too many requests",
        "statuscode: 429",
        "toomanyrequests",
        "connection reset by peer",
        "connection refused",
        "connection timed out",
        "i/o timeout",
        "tls handshake timeout",
        "client.timeout exceeded",
        "timeout awaiting response headers",
        "network is unreachable",
        "network is down",
        "no route to host",
        "host is down",
        "software caused connection abort",
        "temporary failure in name resolution",
        "server misbehaving",
        "http2: server sent goaway",
        "http2: client connection lost",
        "stream error: stream id",
        "server closed idle connection",
        "unexpected eof",
    ]
}

/// Whether a message reports a truncated or corrupted blob transfer.
pub fn is_truncated_blob(msg: &str) -> (truncated: bool)
    ensures
        truncated == truncated_blob(msg@),
{
    (contains(msg, "expected ") && contains(msg, " bytes in blob, got ")) || contains(
        msg,
        "corrupted blob, expecting ",
    )
}

/// Whether a message that is in lowercase already names an HTTP 5xx status.
pub fn is_server_error(msg: &str) -> (found: bool)
    ensures
        found == server_error(msg@),
{
    let mut status: u64 = 500;
    while status < 600
        invariant
            500 <= status <= 600,
            forall|n: nat| 500 <= n < status ==> !has_text(msg@, #[trigger] status_text(n)),
        decreases 600 - status,
    {
        let mut text = "received unexpected http status: ".to_owned();
        append_decimal(&mut text, status);
        assert(text@ == status_text(status as nat));
        if contains(msg, text.as_str()) {
            return true;
        }
        status = status + 1;
    }
    false
}

/// Whether a message that is in lowercase already describes a transient failure.
pub fn is_transient_lowercase(msg: &str) -> (transient: bool)
    ensures
        transient == transient_lowercase(msg@),
{
    if is_truncated_blob(msg) || is_server_error(msg) {
        return true;
    }
    let patterns: [&'static str; 22] = transient_error_patterns();
    let mut i: usize = 0;
    while i < 22
        invariant
            i <= 22,
            transient_patterns().len() == 22,
            forall|j: int| 0 <= j < 22 ==> (#[trigger] patterns@[j])@ == transient_patterns()[j],
            forall|j: int| 0 <= j < i ==> !has_text(msg@, #[trigger] transient_patterns()[j]),
        decreases 22 - i,
    {
        assert(patterns@[i as int]@ == transient_patterns()[i as int]);
        if contains(msg, patterns[i]) {
            return true;
        }
        i = i + 1;
    }
    // A connection closed without a response, as in `Get "https://...": EOF`
    ends_with(trim_end(msg), ": eof")
}

/// Whether a message from the proxy describes a transient failure.
pub fn is_transient_message(msg: &str) -> (transient: bool)
    ensures
        transient == transient_message(msg@),
        transient == transient_lowercase(lowercased(msg@)),
{
    let lower = to_lowercase(msg);
    is_transient_lowercase(lower.as_str())
}

/// How the proxy says that fetching a raw blob failed.
#[derive(Debug)]
pub enum GetBlobError {
    /// A failure that the proxy itself calls worth retrying.
    Retryable(String),
    /// Any other failure.
    Other(String),
}

/// An error of the image proxy.
#[derive(Debug)]
pub enum ProxyError {
    /// A raw blob could not be fetched.
    BlobError(GetBlobError),
    /// A request could not be carried out.
    RequestInitiationFailure {
        /// The proxy method that was invoked.
        method: String,
        /// What the proxy answered.
        error: String,
    },
    /// The proxy returned an error.
    RequestReturned(String),
    /// A local failure, such as the proxy process having exited, with the whole
    /// text of its message.
    Local(String),
}

/// A blob fetch where both the image proxy and the local import failed.
///
/// The proxy's error comes first: a broken transfer is usually what made the
/// import fail too, and it decides whether to retry.
#[derive(Debug)]
pub struct ProxyAndImportError {
    /// The error of the proxy.
    pub proxy: ProxyError,
    /// The import's error and its causes, as one text.
    pub import: String,
}

/// One link of the chain from an error to its root cause.
#[derive(Debug)]
pub enum Cause {
    /// An error of the image proxy.
    Proxy(ProxyError),
    /// An error of the image proxy together with one of the import.
    ProxyAndImport(ProxyAndImportError),
    /// Anything else, such as context or a local failure.
    Other(String),
}

/// Whether an error of the proxy is worth retrying: one that the proxy calls
/// retryable, or one with a transient message.
pub open spec fn transient_proxy_error(err: ProxyError) -> bool {
    match err {
        ProxyError::BlobError(GetBlobError::Retryable(_)) => true,
        ProxyError::RequestInitiationFailure { method: _, error } => transient_message(error@),
        ProxyError::RequestReturned(msg) => transient_message(msg@),
        _ => false,
    }
}

/// Whether a single cause is an error of the proxy that is worth retrying.
pub open spec fn transient_cause(cause: Cause) -> bool {
    match cause {
        Cause::Proxy(err) => transient_proxy_error(err),
        Cause::ProxyAndImport(err) => transient_proxy_error(err.proxy),
        Cause::Other(_) => false,
    }
}

/// Whether an error, given as the chain of its causes, is worth retrying.
pub open spec fn transient_chain(causes: Seq<Cause>) -> bool {
    exists|i: int| 0 <= i < causes.len() && transient_cause(#[trigger] causes[i])
}

/// Whether an error of the proxy is worth retrying.
pub fn is_transient_proxy_error(err: &ProxyError) -> (transient: bool)
    ensures
        transient == transient_proxy_error(*err),
{
    match err {
        ProxyError::BlobError(GetBlobError::Retryable(_)) => true,
        ProxyError::RequestInitiationFailure { method: _, error } => is_transient_message(
            error.as_str(),
        ),
        ProxyError::RequestReturned(msg) => is_transient_message(msg.as_str()),
        _ => false,
    }
}

/// Whether an error looks like a transient failure that is worth retrying.
///
/// Only errors reported by the image proxy are considered; local failures are
/// never retried.
pub fn is_transient(causes: &[Cause]) -> (transient: bool)
    ensures
        transient == transient_chain(causes@),
{
    let mut i: usize = 0;
    while i < causes.len()
        invariant
            i <= causes@.len(),
            forall|j: int| 0 <= j < i ==> !transient_cause(#[trigger] causes@[j]),
        decreases causes@.len() - i,
    {
        let transient = match &causes[i] {
            Cause::Proxy(err) => is_transient_proxy_error(err),
            Cause::ProxyAndImport(err) => is_transient_proxy_error(&err.proxy),
            Cause::Other(_) => false,
        };
        assert(transient == transient_cause(causes@[i as int]));
        if transient {
            return true;
        }
        i = i + 1;
    }
    false
}

/// The message of an error of both the proxy and the import.
pub open spec fn both_failed_text(proxy: Seq<char>, import: Seq<char>) -> Seq<char> {
    proxy + "; the import also failed: "@ + import
}

/// The message of an error of both the proxy and the import, from their own.
pub fn both_failed_message(proxy: &str, import: &str) -> (message: String)
    ensures
        message@ == both_failed_text(proxy@, import@),
{
    let mut message = proxy.to_owned();
    message.append("; the import also failed: ");
    message.append(import);
    message
}

/// Context does not matter: wrapping an error in further causes that are not the
/// proxy's, on either side, does not change whether it is retried.
pub proof fn law_context_does_not_matter(causes: Seq<Cause>, outer: Seq<Cause>, inner: Seq<Cause>)
    requires
        forall|i: int| 0 <= i < outer.len() ==> #[trigger] outer[i] is Other,
        forall|i: int| 0 <= i < inner.len() ==> #[trigger] inner[i] is Other,
    ensures
        transient_chain(outer + causes + inner) == transient_chain(causes),
{
    let whole = outer + causes + inner;
    if transient_chain(causes) {
        let i = choose|i: int| 0 <= i < causes.len() && transient_cause(#[trigger] causes[i]);
        assert(transient_cause(whole[outer.len() + i]));
    }
    if transient_chain(whole) {
        let i = choose|i: int| 0 <= i < whole.len() && transient_cause(#[trigger] whole[i]);
        if i < outer.len() {
            assert(outer[i] is Other);
        } else if i < outer.len() + causes.len() {
            assert(transient_cause(causes[i - outer.len()]));
        } else {
            assert(inner[i - outer.len() - causes.len()] is Other);
        }
    }
}

/// Local failures are never retried, whatever they say.
pub proof fn law_local_failures_are_permanent(causes: Seq<Cause>)
    requires
        forall|i: int|
            0 <= i < causes.len() ==> (#[trigger] causes[i] is Other || causes[i]
                matches Cause::Proxy(ProxyError::Local(_))),
    ensures
        !transient_chain(causes),
{
}

/// Where both the proxy and the import failed, the proxy decides.
pub proof fn law_the_proxy_decides(err: ProxyAndImportError)
    ensures
        transient_chain(seq![Cause::ProxyAndImport(err)]) == transient_proxy_error(err.proxy),
{
    let causes = seq![Cause::ProxyAndImport(err)];
    assert(transient_cause(causes[0]) == transient_proxy_error(err.proxy));
}

/// Every HTTP 5xx response is transient, whatever stands before and behind its status
/// in an ASCII message.
pub proof fn law_server_errors_are_transient(before: Seq<char>, status: nat, behind: Seq<char>)
    requires
        ascii_text(before),
        ascii_text(behind),
        500 <= status < 600,
    ensures
        transient_message(
            before + ("received unexpected HTTP status: "@ + decimal(status)) + behind,
        ),
{
    let words = "received unexpected HTTP status: "@;
    let named = words + decimal(status);
    reveal_strlit("received unexpected HTTP status: ");
    reveal_strlit("received unexpected http status: ");
    assert(ascii_lower(words) =~= "received unexpected http status: "@);
    lemma_decimal_is_lowercase(status);
    lemma_ascii_join(words, decimal(status));
    assert(ascii_lower(named) == status_text(status));
    lemma_ascii_join(before, named);
    lemma_ascii_join(before + named, behind);
    let whole = ascii_lower(before) + status_text(status) + ascii_lower(behind);
    let at = before.len() as int;
    assert(whole.subrange(at, at + status_text(status).len()) =~= status_text(status));
    assert(has_text(whole, status_text(status)));
}

proof fn lemma_decimal_is_lowercase(n: nat)
    ensures
        ascii_text(decimal(n)),
        ascii_lower(decimal(n)) == decimal(n),
    decreases n,
{
    if n >= 10 {
        lemma_decimal_is_lowercase(n / 10);
        let high = decimal(n / 10);
        let whole = decimal(n);
        assert forall|i: int| 0 <= i < whole.len() implies (#[trigger] whole[i] as u32) < 128 by {
            if i < high.len() {
                assert((high[i] as u32) < 128);
            }
        }
        assert forall|i: int| 0 <= i < whole.len() implies ascii_lower(whole)[i] == whole[i] by {
            if i < high.len() {
                assert(ascii_lower(high)[i] == high[i]);
            }
        }
    }
    assert(ascii_lower(decimal(n)) =~= decimal(n));
}

/// The letter case of an ASCII message does not matter.
pub proof fn law_case_does_not_matter(a: Seq<char>, b: Seq<char>)
    requires
        ascii_text(a),
        ascii_text(b),
        ascii_lower(a) == ascii_lower(b),
    ensures
        transient_message(a) == transient_message(b),
{
}

/// Writing an ASCII message in uppercase does not change whether it is transient.
pub proof fn law_uppercase_does_not_matter(msg: Seq<char>)
    requires
        ascii_text(msg),
    ensures
        transient_message(ascii_upper(msg)) == transient_message(msg),
{
    let upper = ascii_upper(msg);
    assert forall|i: int| 0 <= i < upper.len() implies (#[trigger] upper[i] as u32) < 128 by {
        assert((msg[i] as u32) < 128);
    }
    assert(ascii_lower(upper) =~= ascii_lower(msg));
    law_case_does_not_matter(upper, msg);
}

/// A transient ASCII message stays transient when something is put before it, as a
/// wrapping error does.
pub proof fn law_prefix_keeps_a_message_transient(prefix: Seq<char>, msg: Seq<char>)
    requires
        ascii_text(prefix),
        ascii_text(msg),
        transient_message(msg),
    ensures
        transient_message(prefix + msg),
{
    lemma_ascii_join(prefix, msg);
    law_prefix_keeps_a_lowercase_message_transient(ascii_lower(prefix), ascii_lower(msg));
}

/// A transient ASCII message stays transient with white space behind it, such as the
/// end of a line.
pub proof fn law_white_space_keeps_a_message_transient(msg: Seq<char>, space: Seq<char>)
    requires
        ascii_text(msg),
        ascii_text(space),
        forall|i: int| 0 <= i < space.len() ==> is_white_space(#[trigger] space[i]),
        transient_message(msg),
    ensures
        transient_message(msg + space),
{
    lemma_ascii_join(msg, space);
    assert forall|i: int| 0 <= i < space.len() implies #[trigger] ascii_lower(space)[i]
        == space[i] by {
        assert(is_white_space(space[i]));
    }
    assert(ascii_lower(space) =~= space);
    law_white_space_keeps_a_lowercase_message_transient(ascii_lower(msg), space);
}

/// A transient message in lowercase stays transient when something is put before it.
pub proof fn law_prefix_keeps_a_lowercase_message_transient(prefix: Seq<char>, msg: Seq<char>)
    requires
        transient_lowercase(msg),
    ensures
        transient_lowercase(prefix + msg),
{
    let whole = prefix + msg;
    if truncated_blob(msg) {
        if has_text(msg, "corrupted blob, expecting "@) {
            lemma_prefix_keeps_text(prefix, msg, "corrupted blob, expecting "@);
        } else {
            lemma_prefix_keeps_text(prefix, msg, "expected "@);
            lemma_prefix_keeps_text(prefix, msg, " bytes in blob, got "@);
        }
    } else if server_error(msg) {
        let status = choose|status: nat|
            500 <= status < 600 && has_text(msg, #[trigger] status_text(status));
        lemma_prefix_keeps_text(prefix, msg, status_text(status));
    } else if exists|i: int|
        0 <= i < transient_patterns().len() && has_text(msg, #[trigger] transient_patterns()[i]) {
        let i = choose|i: int|
            0 <= i < transient_patterns().len() && has_text(
                msg,
                #[trigger] transient_patterns()[i],
            );
        lemma_prefix_keeps_text(prefix, msg, transient_patterns()[i]);
    } else {
        reveal_strlit(": eof");
        let trimmed = trimmed_end(msg);
        lemma_prefix_keeps_trimming(prefix, msg);
        assert((prefix + trimmed).subrange(
            (prefix + trimmed).len() - 5,
            (prefix + trimmed).len() as int,
        ) =~= trimmed.subrange(trimmed.len() - 5, trimmed.len() as int));
    }
}

/// A transient message in lowercase stays transient with white space behind it.
pub proof fn law_white_space_keeps_a_lowercase_message_transient(msg: Seq<char>, space: Seq<char>)
    requires
        forall|i: int| 0 <= i < space.len() ==> is_white_space(#[trigger] space[i]),
        transient_lowercase(msg),
    ensures
        transient_lowercase(msg + space),
{
    lemma_trimming_ignores_space(msg, space);
    if truncated_blob(msg) {
        if has_text(msg, "corrupted blob, expecting "@) {
            lemma_suffix_keeps_text(msg, space, "corrupted blob, expecting "@);
        } else {
            lemma_suffix_keeps_text(msg, space, "expected "@);
            lemma_suffix_keeps_text(msg, space, " bytes in blob, got "@);
        }
    } else if server_error(msg) {
        let status = choose|status: nat|
            500 <= status < 600 && has_text(msg, #[trigger] status_text(status));
        lemma_suffix_keeps_text(msg, space, status_text(status));
    } else if exists|i: int|
        0 <= i < transient_patterns().len() && has_text(msg, #[trigger] transient_patterns()[i]) {
        let i = choose|i: int|
            0 <= i < transient_patterns().len() && has_text(
                msg,
                #[trigger] transient_patterns()[i],
            );
        lemma_suffix_keeps_text(msg, space, transient_patterns()[i]);
    }
}

proof fn lemma_ascii_join(a: Seq<char>, b: Seq<char>)
    requires
        ascii_text(a),
        ascii_text(b),
    ensures
        ascii_text(a + b),
        ascii_lower(a + b) == ascii_lower(a) + ascii_lower(b),
{
    assert forall|i: int| 0 <= i < (a + b).len() implies (#[trigger] (a + b)[i] as u32) < 128 by {
        if i < a.len() {
            assert((a[i] as u32) < 128);
        } else {
            assert((b[i - a.len()] as u32) < 128);
        }
    }
    assert(ascii_lower(a + b) =~= ascii_lower(a) + ascii_lower(b));
}

proof fn lemma_suffix_keeps_text(text: Seq<char>, suffix: Seq<char>, pattern: Seq<char>)
    requires
        has_text(text, pattern),
    ensures
        has_text(text + suffix, pattern),
{
    let i = choose|i: int|
        0 <= i <= text.len() - pattern.len() && #[trigger] text.subrange(i, i + pattern.len())
            == pattern;
    assert((text + suffix).subrange(i, i + pattern.len()) =~= pattern);
}

proof fn lemma_trimming_ignores_space(text: Seq<char>, space: Seq<char>)
    requires
        forall|i: int| 0 <= i < space.len() ==> is_white_space(#[trigger] space[i]),
    ensures
        trimmed_end(text + space) == trimmed_end(text),
    decreases space.len(),
{
    let whole = text + space;
    if space.len() == 0 {
        assert(whole =~= text);
    } else {
        assert(whole.last() == space[space.len() - 1]);
        assert(whole.drop_last() =~= text + space.drop_last());
        assert forall|i: int| 0 <= i < space.drop_last().len() implies is_white_space(
            #[trigger] space.drop_last()[i],
        ) by {
            assert(is_white_space(space[i]));
        }
        lemma_trimming_ignores_space(text, space.drop_last());
    }
}

proof fn lemma_prefix_keeps_text(prefix: Seq<char>, text: Seq<char>, pattern: Seq<char>)
    requires
        has_text(text, pattern),
    ensures
        has_text(prefix + text, pattern),
{
    let i = choose|i: int|
        0 <= i <= text.len() - pattern.len() && #[trigger] text.subrange(i, i + pattern.len())
            == pattern;
    let at = prefix.len() + i;
    assert((prefix + text).subrange(at, at + pattern.len()) =~= pattern);
}

proof fn lemma_prefix_keeps_trimming(prefix: Seq<char>, text: Seq<char>)
    requires
        trimmed_end(text).len() > 0,
    ensures
        trimmed_end(prefix + text) == prefix + trimmed_end(text),
    decreases text.len(),
{
    let whole = prefix + text;
    assert(whole.last() == text.last());
    if is_white_space(text.last()) {
        lemma_prefix_keeps_trimming(prefix, text.drop_last());
        assert(whole.drop_last() =~= prefix + text.drop_last());
    }
}

/// Which lowercase messages are transient, and that no others are: those that name an
/// HTTP status from 500 to 599, rate limiting or a failure of the network, report a
/// short or corrupted blob, or end with a closed connection. In particular a message
/// with none of these is permanent, whatever else it says: that access is unauthorized,
/// or that a manifest is unknown.
pub proof fn law_no_other_message_is_transient(msg: Seq<char>)
    ensures
        transient_lowercase(msg) <==> {
        ||| has_text(msg, "too many requests"@)
        ||| has_text(msg, "statuscode: 429"@)
        ||| has_text(msg, "toomanyrequests"@)
        ||| has_text(msg, "connection reset by peer"@)
        ||| has_text(msg, "connection refused"@)
        ||| has_text(msg, "connection timed out"@)
        ||| has_text(msg, "i/o timeout"@)
        ||| has_text(msg, "tls handshake timeout"@)
        ||| has_text(msg, "client.timeout exceeded"@)
        ||| has_text(msg, "timeout awaiting response headers"@)
        ||| has_text(msg, "network is unreachable"@)
        ||| has_text(msg, "network is down"@)
        ||| has_text(msg, "no route to host"@)
        ||| has_text(msg, "host is down"@)
        ||| has_text(msg, "software caused connection abort"@)
        ||| has_text(msg, "temporary failure in name resolution"@)
        ||| has_text(msg, "server misbehaving"@)
        ||| has_text(msg, "http2: server sent goaway"@)
        ||| has_text(msg, "http2: client connection lost"@)
        ||| has_text(msg, "stream error: stream id"@)
        ||| has_text(msg, "server closed idle connection"@)
        ||| has_text(msg, "unexpected eof"@)
        ||| exists|n: nat|
            500 <= n <= 599 && has_text(
                msg,
                "received unexpected http status: "@ + #[trigger] decimal(n),
            )
        ||| has_text(msg, "expected "@) && has_text(msg, " bytes in blob, got "@)
        ||| has_text(msg, "corrupted blob, expecting "@)
        ||| trimmed_end(msg).len() >= 5 && trimmed_end(msg).skip(trimmed_end(msg).len() - 5)
            == ": eof"@
        },
{
    reveal_strlit(": eof");
    let trimmed = trimmed_end(msg);
    if trimmed.len() >= 5 {
        assert(trimmed.skip(trimmed.len() - 5) =~= trimmed.subrange(
            trimmed.len() - 5,
            trimmed.len() as int,
        ));
    }
    assert(transient_patterns()[0] == "too many requests"@);
    assert(transient_patterns()[1] == "statuscode: 429"@);
    assert(transient_patterns()[2] == "toomanyrequests"@);
    assert(transient_patterns()[3] == "connection reset by peer"@);
    assert(transient_patterns()[4] == "connection refused"@);
    assert(transient_patterns()[5] == "connection timed out"@);
    assert(transient_patterns()[6] == "i/o timeout"@);
    assert(transient_patterns()[7] == "tls handshake timeout"@);
    assert(transient_patterns()[8] == "client.timeout exceeded"@);
    assert(transient_patterns()[9] == "timeout awaiting response headers"@);
    assert(transient_patterns()[10] == "network is unreachable"@);
    assert(transient_patterns()[11] == "network is down"@);
    assert(transient_patterns()[12] == "no route to host"@);
    assert(transient_patterns()[13] == "host is down"@);
    assert(transient_patterns()[14] == "software caused connection abort"@);
    assert(transient_patterns()[15] == "temporary failure in name resolution"@);
    assert(transient_patterns()[16] == "server misbehaving"@);
    assert(transient_patterns()[17] == "http2: server sent goaway"@);
    assert(transient_patterns()[18] == "http2: client connection lost"@);
    assert(transient_patterns()[19] == "stream error: stream id"@);
    assert(transient_patterns()[20] == "server closed idle connection"@);
    assert(transient_patterns()[21] == "unexpected eof"@);
    if server_error(msg) {
        let n = choose|n: nat| 500 <= n < 600 && has_text(msg, #[trigger] status_text(n));
        assert(has_text(msg, "received unexpected http status: "@ + decimal(n)));
    }
    if exists|n: nat|
        500 <= n <= 599 && has_text(
            msg,
            "received unexpected http status: "@ + #[trigger] decimal(n),
        ) {
        let n = choose|n: nat|
            500 <= n <= 599 && has_text(
                msg,
                "received unexpected http status: "@ + #[trigger] decimal(n),
            );
        assert(has_text(msg, status_text(n)));
    }
}

/// A message of the proxy is judged by its text alone, in whatever error it comes, and
/// an ASCII one by its text in lowercase; a raw blob's error by what the proxy calls
/// it; and nothing else is retried.
pub proof fn law_an_error_is_judged_by_its_message_alone(
    message: String,
    method: String,
    import: String,
)
    ensures
        ({
            let verdict = transient_message(message@);
            let returned = ProxyError::RequestReturned(message);
            let failed = ProxyError::RequestInitiationFailure { method, error: message };
            let local = ProxyError::Local(message);
            let retryable = ProxyError::BlobError(GetBlobError::Retryable(message));
            let other = ProxyError::BlobError(GetBlobError::Other(message));
            &&& ascii_text(message@) ==> verdict == transient_lowercase(ascii_lower(message@))
            &&& !ascii_text(message@) ==> verdict == transient_lowercase(lowercased(message@))
            &&& transient_proxy_error(returned) == verdict
            &&& transient_proxy_error(failed) == verdict
            &&& transient_proxy_error(retryable)
            &&& !transient_proxy_error(other)
            &&& !transient_proxy_error(local)
            &&& transient_chain(seq![Cause::Proxy(returned)]) == verdict
            &&& transient_chain(seq![Cause::Proxy(failed)]) == verdict
            &&& transient_chain(seq![Cause::Proxy(retryable)])
            &&& !transient_chain(seq![Cause::Proxy(other)])
            &&& !transient_chain(seq![Cause::Proxy(local)])
            &&& !transient_chain(seq![Cause::Other(message)])
        }),
{
    law_a_chain_is_as_transient_as_its_links(Cause::Other(message), seq![], seq![]);
    law_a_chain_is_as_transient_as_its_links(
        Cause::Proxy(ProxyError::RequestReturned(message)),
        seq![],
        seq![],
    );
    law_a_chain_is_as_transient_as_its_links(
        Cause::Proxy(ProxyError::RequestInitiationFailure { method, error: message }),
        seq![],
        seq![],
    );
    law_a_chain_is_as_transient_as_its_links(
        Cause::Proxy(ProxyError::BlobError(GetBlobError::Retryable(message))),
        seq![],
        seq![],
    );
}

/// A chain of causes is worth retrying exactly when one of its links alone is: the
/// empty chain is not, and of two chains joined one has to be.
pub proof fn law_a_chain_is_as_transient_as_its_links(cause: Cause, a: Seq<Cause>, b: Seq<Cause>)
    ensures
        !transient_chain(seq![]),
        transient_chain(seq![cause]) == transient_cause(cause),
        transient_chain(a + b) == (transient_chain(a) || transient_chain(b)),
        cause matches Cause::Proxy(err) ==> transient_cause(cause) == transient_proxy_error(err),
        cause matches Cause::ProxyAndImport(err) ==> transient_chain(seq![cause])
            == transient_chain(seq![Cause::Proxy(err.proxy)]),
        cause is Other ==> !transient_cause(cause),
{
    let single = seq![cause];
    assert(single[0] == cause);
    if let Cause::ProxyAndImport(err) = cause {
        let proxy = seq![Cause::Proxy(err.proxy)];
        assert(transient_cause(proxy[0]) == transient_proxy_error(err.proxy));
    }
    let whole = a + b;
    if transient_chain(a) {
        let i = choose|i: int| 0 <= i < a.len() && transient_cause(#[trigger] a[i]);
        assert(transient_cause(whole[i]));
    }
    if transient_chain(b) {
        let i = choose|i: int| 0 <= i < b.len() && transient_cause(#[trigger] b[i]);
        assert(transient_cause(whole[a.len() + i]));
    }
    if transient_chain(whole) {
        let i = choose|i: int| 0 <= i < whole.len() && transient_cause(#[trigger] whole[i]);
        if i < a.len() {
            assert(transient_cause(a[i]));
        } else {
            assert(transient_cause(b[i - a.len()]));
        }
    }
}

/// Where both failed, the proxy's message comes first, the import's last, and between
/// them stands that the import failed too.
pub proof fn law_both_failures_are_told(proxy: Seq<char>, import: Seq<char>)
    ensures
        ({
            let text = both_failed_text(proxy, import);
            let between = "; the import also failed: "@;
            &&& text.len() == proxy.len() + between.len() + import.len()
            &&& text.take(proxy.len() as int) == proxy
            &&& text.skip(proxy.len() as int).take(between.len() as int) == between
            &&& text.skip(text.len() - import.len()) == import
        }),
{
    let text = both_failed_text(proxy, import);
    let between = "; the import also failed: "@;
    assert(text.take(proxy.len() as int) =~= proxy);
    assert(text.skip(proxy.len() as int).take(between.len() as int) =~= between);
    assert(text.skip(text.len() - import.len()) =~= import);
}

} // verus!
