//! Fetching one layer: only data that the image proxy has verified is registered,
//! and every attempt starts from scratch.

use vstd::prelude::*;

use crate::duration::Duration;
use crate::retry::{RetryAction, RetryLoop, RetryPolicy};
use crate::transient::Cause;

verus! {

/// Content type of a layer: the letters `ocilayer`, least significant first.
pub const TAR_LAYER_CONTENT_TYPE: u64 = 0x7265_7961_6c69_636f;

/// Content type of an image configuration: the letters `ociconfg`.
pub const OCI_CONFIG_CONTENT_TYPE: u64 = 0x6766_6e6f_6369_636f;

/// Content type of an image manifest: the letters `ocimanif`.
pub const OCI_MANIFEST_CONTENT_TYPE: u64 = 0x6669_6e61_6d69_636f;

/// Content type of any other blob: the letters `oci_blob`.
pub const OCI_BLOB_CONTENT_TYPE: u64 = 0x626f_6c62_5f69_636f;

/// How the content of a blob came into the repository.
#[derive(Debug, Clone, Copy, PartialEq, Eq, Structural)]
pub enum ObjectStoreMethod {
    /// By copying it.
    Copied,
    /// By sharing its extents.
    Reflinked,
    /// By linking to it.
    Hardlinked,
    /// It was there before.
    AlreadyPresent,
}

/// What an import did.
#[derive(Debug, Clone, Copy, PartialEq, Eq, Structural)]
pub struct ImportStats {
    /// How many objects were copied.
    pub objects_copied: u64,
    /// How many bytes they have.
    pub bytes_copied: u64,
    /// How many objects were reflinked.
    pub objects_reflinked: u64,
    /// How many bytes they have.
    pub bytes_reflinked: u64,
    /// How many objects were hardlinked.
    pub objects_hardlinked: u64,
    /// How many bytes they have.
    pub bytes_hardlinked: u64,
    /// How many objects were there before.
    pub objects_already_present: u64,
}

/// The statistics of an import that did nothing.
pub open spec fn no_stats() -> ImportStats {
    ImportStats {
        objects_copied: 0,
        bytes_copied: 0,
        objects_reflinked: 0,
        bytes_reflinked: 0,
        objects_hardlinked: 0,
        bytes_hardlinked: 0,
        objects_already_present: 0,
    }
}

/// The statistics of storing one blob.
pub open spec fn blob_stats(method: ObjectStoreMethod, size: u64) -> ImportStats {
    match method {
        ObjectStoreMethod::Copied => ImportStats {
            objects_copied: 1,
            bytes_copied: size,
            ..no_stats()
        },
        ObjectStoreMethod::Reflinked => ImportStats {
            objects_reflinked: 1,
            bytes_reflinked: size,
            ..no_stats()
        },
        ObjectStoreMethod::Hardlinked => ImportStats {
            objects_hardlinked: 1,
            bytes_hardlinked: size,
            ..no_stats()
        },
        ObjectStoreMethod::AlreadyPresent => ImportStats {
            objects_already_present: 1,
            ..no_stats()
        },
    }
}

/// The sum of the statistics of two imports, each number for itself.
pub open spec fn summed(a: ImportStats, b: ImportStats) -> ImportStats {
    ImportStats {
        objects_copied: (a.objects_copied + b.objects_copied) as u64,
        bytes_copied: (a.bytes_copied + b.bytes_copied) as u64,
        objects_reflinked: (a.objects_reflinked + b.objects_reflinked) as u64,
        bytes_reflinked: (a.bytes_reflinked + b.bytes_reflinked) as u64,
        objects_hardlinked: (a.objects_hardlinked + b.objects_hardlinked) as u64,
        bytes_hardlinked: (a.bytes_hardlinked + b.bytes_hardlinked) as u64,
        objects_already_present: (a.objects_already_present + b.objects_already_present) as u64,
    }
}

/// Whether no number of the sum is too large.
pub open spec fn sum_fits(a: ImportStats, b: ImportStats) -> bool {
    &&& a.objects_copied + b.objects_copied <= u64::MAX
    &&& a.bytes_copied + b.bytes_copied <= u64::MAX
    &&& a.objects_reflinked + b.objects_reflinked <= u64::MAX
    &&& a.bytes_reflinked + b.bytes_reflinked <= u64::MAX
    &&& a.objects_hardlinked + b.objects_hardlinked <= u64::MAX
    &&& a.bytes_hardlinked + b.bytes_hardlinked <= u64::MAX
    &&& a.objects_already_present + b.objects_already_present <= u64::MAX
}

impl ImportStats {
    /// The statistics of both imports together, or `None` where a number would be too
    /// large.
    pub fn merge(&self, other: &Self) -> (merged: Option<Self>)
        ensures
            merged == if sum_fits(*self, *other) {
                Some(summed(*self, *other))
            } else {
                None
            },
    {
        Some(
            ImportStats {
                objects_copied: self.objects_copied.checked_add(other.objects_copied)?,
                bytes_copied: self.bytes_copied.checked_add(other.bytes_copied)?,
                objects_reflinked: self.objects_reflinked.checked_add(other.objects_reflinked)?,
                bytes_reflinked: self.bytes_reflinked.checked_add(other.bytes_reflinked)?,
                objects_hardlinked: self.objects_hardlinked.checked_add(
                    other.objects_hardlinked,
                )?,
                bytes_hardlinked: self.bytes_hardlinked.checked_add(other.bytes_hardlinked)?,
                objects_already_present: self.objects_already_present.checked_add(
                    other.objects_already_present,
                )?,
            },
        )
    }
}

impl Default for ImportStats {
    fn default() -> (stats: Self)
        ensures
            stats == no_stats(),
    {
        ImportStats {
            objects_copied: 0,
            bytes_copied: 0,
            objects_reflinked: 0,
            bytes_reflinked: 0,
            objects_hardlinked: 0,
            bytes_hardlinked: 0,
            objects_already_present: 0,
        }
    }
}

/// What one number of the statistics comes to over all of these imports.
pub open spec fn total(all: Seq<ImportStats>, number: spec_fn(ImportStats) -> nat) -> nat
    decreases all.len(),
{
    if all.len() == 0 {
        0
    } else {
        total(all.drop_last(), number) + number(all.last())
    }
}

/// Whether these are the statistics of all of these imports together.
pub open spec fn are_totals(all: Seq<ImportStats>, stats: ImportStats) -> bool {
    &&& stats.objects_copied == total(all, |s: ImportStats| s.objects_copied as nat)
    &&& stats.bytes_copied == total(all, |s: ImportStats| s.bytes_copied as nat)
    &&& stats.objects_reflinked == total(all, |s: ImportStats| s.objects_reflinked as nat)
    &&& stats.bytes_reflinked == total(all, |s: ImportStats| s.bytes_reflinked as nat)
    &&& stats.objects_hardlinked == total(all, |s: ImportStats| s.objects_hardlinked as nat)
    &&& stats.bytes_hardlinked == total(all, |s: ImportStats| s.bytes_hardlinked as nat)
    &&& stats.objects_already_present == total(
        all,
        |s: ImportStats| s.objects_already_present as nat,
    )
}

/// Adds up the statistics of all of these imports; `None` where a number is too large.
pub fn total_stats(all: &[ImportStats]) -> (stats: Option<ImportStats>)
    ensures
        match stats {
            Some(stats) => are_totals(all@, stats),
            None => forall|stats: ImportStats| !are_totals(all@, stats),
        },
{
    let mut stats = ImportStats::default();
    let mut i: usize = 0;
    while i < all.len()
        invariant
            i <= all@.len(),
            are_totals(all@.take(i as int), stats),
        decreases all@.len() - i,
    {
        let ghost before = all@.take(i as int);
        let ghost now = all@.take(i + 1);
        assert(now.drop_last() =~= before);
        match stats.merge(&all[i]) {
            Some(merged) => {
                stats = merged;
            },
            None => {
                assert forall|any: ImportStats| !are_totals(all@, any) by {
                    lemma_total_grows(all@, i + 1, |s: ImportStats| s.objects_copied as nat);
                    lemma_total_grows(all@, i + 1, |s: ImportStats| s.bytes_copied as nat);
                    lemma_total_grows(all@, i + 1, |s: ImportStats| s.objects_reflinked as nat);
                    lemma_total_grows(all@, i + 1, |s: ImportStats| s.bytes_reflinked as nat);
                    lemma_total_grows(all@, i + 1, |s: ImportStats| s.objects_hardlinked as nat);
                    lemma_total_grows(all@, i + 1, |s: ImportStats| s.bytes_hardlinked as nat);
                    lemma_total_grows(
                        all@,
                        i + 1,
                        |s: ImportStats| s.objects_already_present as nat,
                    );
                }
                return None;
            },
        }
        i = i + 1;
    }
    assert(all@.take(i as int) =~= all@);
    Some(stats)
}

/// Each number only grows with further imports.
proof fn lemma_total_grows(all: Seq<ImportStats>, n: int, number: spec_fn(ImportStats) -> nat)
    requires
        0 <= n <= all.len(),
    ensures
        total(all.take(n), number) <= total(all, number),
    decreases all.len(),
{
    if n == all.len() {
        assert(all.take(n) =~= all);
    } else {
        lemma_total_grows(all.drop_last(), n, number);
        assert(all.drop_last().take(n) =~= all.take(n));
    }
}

/// The order in which imports finish does not change what they come to together.
pub proof fn law_totals_ignore_completion_order(
    a: Seq<ImportStats>,
    b: Seq<ImportStats>,
    stats: ImportStats,
)
    requires
        a.to_multiset() == b.to_multiset(),
        are_totals(a, stats),
    ensures
        are_totals(b, stats),
{
    lemma_total_of_multiset(a, b, |s: ImportStats| s.objects_copied as nat);
    lemma_total_of_multiset(a, b, |s: ImportStats| s.bytes_copied as nat);
    lemma_total_of_multiset(a, b, |s: ImportStats| s.objects_reflinked as nat);
    lemma_total_of_multiset(a, b, |s: ImportStats| s.bytes_reflinked as nat);
    lemma_total_of_multiset(a, b, |s: ImportStats| s.objects_hardlinked as nat);
    lemma_total_of_multiset(a, b, |s: ImportStats| s.bytes_hardlinked as nat);
    lemma_total_of_multiset(a, b, |s: ImportStats| s.objects_already_present as nat);
}

proof fn lemma_total_of_multiset(
    a: Seq<ImportStats>,
    b: Seq<ImportStats>,
    number: spec_fn(ImportStats) -> nat,
)
    requires
        a.to_multiset() == b.to_multiset(),
    ensures
        total(a, number) == total(b, number),
    decreases a.len(),
{
    a.to_multiset_ensures();
    b.to_multiset_ensures();
    assert(a.len() == b.len());
    if a.len() > 0 {
        let last = a.last();
        assert(a.contains(last));
        assert(a.to_multiset().contains(last));
        assert(b.contains(last));
        let k = choose|k: int| 0 <= k < b.len() && b[k] == last;
        lemma_total_without(b, k, number);
        assert(a.drop_last() =~= a.remove(a.len() - 1));
        assert(a.drop_last().to_multiset() =~= b.remove(k).to_multiset());
        lemma_total_of_multiset(a.drop_last(), b.remove(k), number);
    }
}

proof fn lemma_total_without(all: Seq<ImportStats>, k: int, number: spec_fn(ImportStats) -> nat)
    requires
        0 <= k < all.len(),
    ensures
        total(all, number) == total(all.remove(k), number) + number(all[k]),
    decreases all.len(),
{
    if k == all.len() - 1 {
        assert(all.remove(k) =~= all.drop_last());
    } else {
        lemma_total_without(all.drop_last(), k, number);
        assert(all.remove(k).drop_last() =~= all.drop_last().remove(k));
    }
}

/// What became of the data of a blob, before it is registered.
#[derive(Debug)]
pub enum Imported<ObjectID> {
    /// A tar layer was split into a stream.
    Tar(ObjectID, ImportStats),
    /// Any other blob was stored as an object of that many bytes.
    Blob(ObjectID, u64, ObjectStoreMethod),
}

/// Why an attempt at a blob failed.
#[derive(Debug)]
pub enum BlobFailure<I, P> {
    /// The proxy verified the transfer, and the data could not be used.
    Import(I),
    /// The proxy reports a failed transfer.
    Proxy(P),
    /// Both; the failed transfer is usually the root cause.
    Both {
        /// The error of the proxy.
        proxy: P,
        /// The error of the import.
        import: I,
    },
}

/// What an attempt comes to, given the import of the data and the verdict of the
/// proxy on the transfer: the import counts only where the proxy has verified it.
pub open spec fn verified<T, I, P>(imported: Result<T, I>, verdict: Result<(), P>) -> Result<
    T,
    BlobFailure<I, P>,
> {
    match verdict {
        Ok(_) => match imported {
            Ok(value) => Ok(value),
            Err(import) => Err(BlobFailure::Import(import)),
        },
        Err(proxy) => match imported {
            Ok(_) => Err(BlobFailure::Proxy(proxy)),
            Err(import) => Err(BlobFailure::Both { proxy, import }),
        },
    }
}

/// Joins the import of a blob's data with the verdict of the proxy on its transfer.
pub fn verify_import<T, I, P>(imported: Result<T, I>, verdict: Result<(), P>) -> (joined: Result<
    T,
    BlobFailure<I, P>,
>)
    ensures
        joined == verified(imported, verdict),
{
    match (imported, verdict) {
        (Ok(value), Ok(_)) => Ok(value),
        (Err(import), Ok(_)) => Err(BlobFailure::Import(import)),
        (Ok(_), Err(proxy)) => Err(BlobFailure::Proxy(proxy)),
        (Err(import), Err(proxy)) => Err(BlobFailure::Both { proxy, import }),
    }
}

/// What an attempt comes to where the error of the proxy alone is kept.
pub open spec fn verdict_first<T, I, P>(read: Result<T, I>, verdict: Result<(), P>) -> Result<
    T,
    BlobFailure<I, P>,
> {
    match verdict {
        Err(proxy) => Err(BlobFailure::Proxy(proxy)),
        Ok(_) => match read {
            Ok(value) => Ok(value),
            Err(import) => Err(BlobFailure::Import(import)),
        },
    }
}

/// Joins data that was read as a whole with the verdict of the proxy, which goes
/// before any error of reading.
pub fn verify_read<T, I, P>(read: Result<T, I>, verdict: Result<(), P>) -> (joined: Result<
    T,
    BlobFailure<I, P>,
>)
    ensures
        joined == verdict_first(read, verdict),
{
    match verdict {
        Err(proxy) => Err(BlobFailure::Proxy(proxy)),
        Ok(_) => match read {
            Ok(value) => Ok(value),
            Err(import) => Err(BlobFailure::Import(import)),
        },
    }
}

/// How verified data is registered.
#[derive(Debug)]
pub enum Registration<ObjectID> {
    /// Register the stream under the name of the layer.
    Stream {
        /// The stream.
        object_id: ObjectID,
        /// What the import did.
        stats: ImportStats,
        /// How many bytes were transferred.
        transferred: u64,
    },
    /// Write a stream that refers to the object.
    Reference {
        /// The content type of the stream.
        content_type: u64,
        /// The object.
        object_id: ObjectID,
        /// How many bytes it has.
        size: u64,
        /// What the import did.
        stats: ImportStats,
        /// How many bytes were transferred.
        transferred: u64,
    },
}

/// How imported data of a blob of `descriptor_size` bytes is registered.
pub open spec fn registration_of<ObjectID>(
    imported: Imported<ObjectID>,
    descriptor_size: u64,
) -> Registration<ObjectID> {
    match imported {
        Imported::Tar(object_id, stats) => Registration::Stream {
            object_id,
            stats,
            transferred: descriptor_size,
        },
        Imported::Blob(object_id, size, method) => Registration::Reference {
            content_type: OCI_BLOB_CONTENT_TYPE,
            object_id,
            size,
            stats: blob_stats(method, size),
            transferred: size,
        },
    }
}

/// What an attempt at a layer blob comes to: how to register it, or why it failed.
pub open spec fn import_outcome<ObjectID, I, P>(
    imported: Result<Imported<ObjectID>, I>,
    verdict: Result<(), P>,
    descriptor_size: u64,
) -> Result<Registration<ObjectID>, BlobFailure<I, P>> {
    match verified(imported, verdict) {
        Ok(value) => Ok(registration_of(value, descriptor_size)),
        Err(failure) => Err(failure),
    }
}

/// A single attempt at importing a layer blob of `descriptor_size` bytes: says how to
/// register it, once the proxy has confirmed that the complete blob with the
/// expected size and digest was sent.
pub fn import_layer_blob<ObjectID, I, P>(
    imported: Result<Imported<ObjectID>, I>,
    verdict: Result<(), P>,
    descriptor_size: u64,
) -> (outcome: Result<Registration<ObjectID>, BlobFailure<I, P>>)
    ensures
        outcome == import_outcome(imported, verdict, descriptor_size),
{
    match verify_import(imported, verdict) {
        Ok(Imported::Tar(object_id, stats)) => Ok(
            Registration::Stream { object_id, stats, transferred: descriptor_size },
        ),
        Ok(Imported::Blob(object_id, size, method)) => {
            let mut stats = ImportStats::default();
            match method {
                ObjectStoreMethod::Copied => {
                    stats.objects_copied = 1;
                    stats.bytes_copied = size;
                },
                ObjectStoreMethod::Reflinked => {
                    stats.objects_reflinked = 1;
                    stats.bytes_reflinked = size;
                },
                ObjectStoreMethod::Hardlinked => {
                    stats.objects_hardlinked = 1;
                    stats.bytes_hardlinked = size;
                },
                ObjectStoreMethod::AlreadyPresent => {
                    stats.objects_already_present = 1;
                },
            }
            Ok(
                Registration::Reference {
                    content_type: OCI_BLOB_CONTENT_TYPE,
                    object_id,
                    size,
                    stats,
                    transferred: size,
                },
            )
        },
        Err(failure) => Err(failure),
    }
}

/// Data from a failed attempt is never registered: there is a registration exactly
/// when the proxy has verified the transfer and the import succeeded.
pub proof fn law_only_verified_data_is_registered<T, I, P>(
    imported: Result<T, I>,
    verdict: Result<(), P>,
)
    ensures
        verified(imported, verdict) is Ok <==> imported is Ok && verdict is Ok,
        verdict_first(imported, verdict) is Ok <==> imported is Ok && verdict is Ok,
{
}

/// A failed transfer is never taken for a failed import: whenever the proxy reports
/// one, its error is in the failure.
pub proof fn law_failed_transfer_is_reported<T, I, P>(imported: Result<T, I>, verdict: Result<(), P>)
    requires
        verdict is Err,
    ensures
        match verified(imported, verdict) {
            Err(BlobFailure::Proxy(proxy)) => proxy == verdict->Err_0,
            Err(BlobFailure::Both { proxy, import }) => proxy == verdict->Err_0,
            _ => false,
        },
{
}

/// What is reported while layers are fetched.
#[derive(Debug)]
pub enum ProgressEvent {
    /// An attempt at a layer starts, and its progress with it.
    Started {
        /// The layer.
        id: String,
        /// How many bytes it has.
        total: u64,
    },
    /// A layer was fetched.
    Done {
        /// The layer.
        id: String,
        /// How many bytes were transferred.
        transferred: u64,
    },
    /// A layer is there already.
    Skipped {
        /// The layer.
        id: String,
    },
    /// Something that is worth telling.
    Message(String),
}

/// What a [`ProgressEvent`] says, over texts.
pub enum ProgressView {
    /// An attempt at a layer starts.
    Started {
        /// The layer.
        id: Seq<char>,
        /// How many bytes it has.
        total: u64,
    },
    /// A layer was fetched.
    Done {
        /// The layer.
        id: Seq<char>,
        /// How many bytes were transferred.
        transferred: u64,
    },
    /// A layer is there already.
    Skipped {
        /// The layer.
        id: Seq<char>,
    },
    /// Something that is worth telling.
    Message(Seq<char>),
}

impl View for ProgressEvent {
    type V = ProgressView;

    open spec fn view(&self) -> ProgressView {
        match *self {
            ProgressEvent::Started { id, total } => ProgressView::Started { id: id@, total },
            ProgressEvent::Done { id, transferred } => ProgressView::Done { id: id@, transferred },
            ProgressEvent::Skipped { id } => ProgressView::Skipped { id: id@ },
            ProgressEvent::Message(message) => ProgressView::Message(message@),
        }
    }
}

/// That many starts of a layer, one after the other.
pub open spec fn starts(id: Seq<char>, total: u64, attempts: nat) -> Seq<ProgressView> {
    Seq::new(attempts, |i: int| ProgressView::Started { id, total })
}

/// A layer that is about to be attempted.
pub struct LayerFetch {
    id: String,
    total: u64,
    retry: RetryLoop,
    log: Ghost<Seq<ProgressView>>,
}

/// A layer while an attempt at it runs.
pub struct LayerAttempt {
    id: String,
    total: u64,
    retry: RetryLoop,
    log: Ghost<Seq<ProgressView>>,
}

/// How a fetch goes on after a failed attempt.
pub enum AfterFailure {
    /// It ends with the error of the attempt, in this context if there is one.
    Stop {
        /// What is put around the error, if anything: that so many retries were made.
        context: Option<String>,
    },
    /// It waits and starts from scratch.
    Again {
        /// The next attempt.
        fetch: LayerFetch,
        /// Which retry this is, counting from one.
        number: u32,
        /// How long to wait before any jitter is taken off.
        exponential: Duration,
    },
}

/// Whether this is how an attempt begins.
pub open spec fn begins(fetch: LayerFetch, started: (LayerAttempt, ProgressEvent)) -> bool {
    &&& started.1@ == (ProgressView::Started { id: fetch.id(), total: fetch.total() })
    &&& started.0.id() == fetch.id()
    &&& started.0.total() == fetch.total()
    &&& started.0.policy() == fetch.policy()
    &&& started.0.attempts() == fetch.attempts() + 1
    &&& started.0.log() == fetch.log().push(started.1@)
}

/// Whether this is what a fetch gives whose attempt succeeded.
pub open spec fn finishes<T>(
    attempt: LayerAttempt,
    value: T,
    transferred: u64,
    fetched: (T, ProgressEvent),
) -> bool {
    fetched.0 == value && fetched.1@ == (ProgressView::Done { id: attempt.id(), transferred })
}

/// Whether this is how a fetch goes on after an attempt that failed with these causes.
pub open spec fn fetch_goes_on(
    attempt: LayerAttempt,
    causes: Seq<Cause>,
    after: AfterFailure,
) -> bool {
    let decision = crate::retry::decide(
        attempt.policy().max_retries as nat,
        (attempt.attempts() - 1) as nat,
        crate::transient::transient_chain(causes),
    );
    match after {
        AfterFailure::Stop { context: None } => decision is Fail,
        AfterFailure::Stop { context: Some(context) } => decision is GiveUp && context@
            == crate::retry::giving_up_text(decision->GiveUp_0),
        AfterFailure::Again { fetch, number, exponential } => {
            &&& decision is Retry
            &&& number == attempt.attempts()
            &&& exponential@ == attempt.policy().full_delay((attempt.attempts() - 1) as nat)
            &&& fetch.id() == attempt.id()
            &&& fetch.total() == attempt.total()
            &&& fetch.policy() == attempt.policy()
            &&& fetch.attempts() == attempt.attempts()
            &&& fetch.log() == attempt.log()
            &&& fetch.attempts() <= attempt.policy().max_retries
        },
    }
}

impl LayerFetch {
    #[verifier::type_invariant]
    closed spec fn wf(&self) -> bool {
        self.log@ == starts(self.id@, self.total, self.retry.retries())
    }

    /// The layer.
    pub closed spec fn id(self) -> Seq<char> {
        self.id@
    }

    /// How many bytes it has.
    pub closed spec fn total(self) -> u64 {
        self.total
    }

    /// The policy that is followed.
    pub closed spec fn policy(self) -> RetryPolicy {
        self.retry.policy()
    }

    /// How many attempts were made.
    pub closed spec fn attempts(self) -> nat {
        self.retry.retries()
    }

    /// What was reported so far.
    pub closed spec fn log(self) -> Seq<ProgressView> {
        self.log@
    }

    /// Before the first attempt at a layer of `total` bytes.
    pub fn new(id: String, total: u64, policy: RetryPolicy) -> (fetch: Self)
        ensures
            fetch.id() == id@,
            fetch.total() == total,
            fetch.policy() == policy,
            fetch.attempts() == 0,
            fetch.log() == Seq::<ProgressView>::empty(),
    {
        let retry = RetryLoop::new(policy);
        assert(starts(id@, total, 0) =~= Seq::<ProgressView>::empty());
        LayerFetch { id, total, retry, log: Ghost(Seq::empty()) }
    }

    /// Starts an attempt and says what to report. It is reported for every attempt:
    /// each one fetches the blob from the start, so its progress restarts from zero.
    pub fn start(self) -> (started: (LayerAttempt, ProgressEvent))
        ensures
            begins(self, started),
            started.0.log() == starts(self.id(), self.total(), started.0.attempts()),
    {
        proof {
            use_type_invariant(&self);
        }
        let event = ProgressEvent::Started { id: self.id.clone(), total: self.total };
        let ghost log = self.log@.push(event@);
        assert(log =~= starts(self.id@, self.total, self.retry.retries() + 1));
        let attempt = LayerAttempt {
            id: self.id,
            total: self.total,
            retry: self.retry,
            log: Ghost(log),
        };
        (attempt, event)
    }
}

impl LayerAttempt {
    #[verifier::type_invariant]
    closed spec fn wf(&self) -> bool {
        self.log@ == starts(self.id@, self.total, self.retry.retries() + 1)
    }

    /// The layer.
    pub closed spec fn id(self) -> Seq<char> {
        self.id@
    }

    /// How many bytes it has.
    pub closed spec fn total(self) -> u64 {
        self.total
    }

    /// The policy that is followed.
    pub closed spec fn policy(self) -> RetryPolicy {
        self.retry.policy()
    }

    /// How many attempts were made, this one among them.
    pub closed spec fn attempts(self) -> nat {
        self.retry.retries() + 1
    }

    /// What was reported so far.
    pub closed spec fn log(self) -> Seq<ProgressView> {
        self.log@
    }

    /// The attempt failed, with an error of these causes.
    pub fn failed(self, causes: &[Cause]) -> (after: AfterFailure)
        ensures
            self.attempts() >= 1,
            fetch_goes_on(self, causes@, after),
    {
        proof {
            use_type_invariant(&self);
        }
        let mut retry = self.retry;
        let action = retry.attempt_failed(causes);
        match action {
            RetryAction::Fail => AfterFailure::Stop { context: None },
            RetryAction::GiveUp { context } => AfterFailure::Stop { context: Some(context) },
            RetryAction::Retry { number, exponential } => AfterFailure::Again {
                fetch: LayerFetch { id: self.id, total: self.total, retry, log: self.log },
                number,
                exponential,
            },
        }
    }

    /// The attempt succeeded with a value, and that many bytes were transferred: gives
    /// the value as the result of the fetch, and says what to report. By then one start
    /// was reported for each attempt, and nothing else.
    pub fn succeeded<T>(self, value: T, transferred: u64) -> (fetched: (T, ProgressEvent))
        ensures
            self.attempts() >= 1,
            finishes(self, value, transferred, fetched),
            self.log() == starts(self.id(), self.total(), self.attempts()),
    {
        proof {
            use_type_invariant(&self);
        }
        (value, ProgressEvent::Done { id: self.id, transferred })
    }
}

/// What is reported of a whole fetch: one start for each attempt that the retries
/// come to, and that it is done only where the last one succeeded.
pub open spec fn fetch_log(
    id: Seq<char>,
    total: u64,
    transferred: u64,
    max_retries: nat,
    outcomes: Seq<crate::retry::Outcome>,
) -> Seq<ProgressView> {
    let (attempts, ending) = crate::retry::run(max_retries, 0, outcomes);
    if ending is Success {
        starts(id, total, attempts).push(ProgressView::Done { id, transferred })
    } else {
        starts(id, total, attempts)
    }
}

/// A fetch reports that it is done at most once, at its end, and exactly when it
/// succeeded; everything before is one start for each attempt.
pub proof fn law_done_is_reported_exactly_on_success(
    id: Seq<char>,
    total: u64,
    transferred: u64,
    max_retries: nat,
    outcomes: Seq<crate::retry::Outcome>,
)
    ensures
        ({
            let log = fetch_log(id, total, transferred, max_retries, outcomes);
            let (attempts, ending) = crate::retry::run(max_retries, 0, outcomes);
            &&& ending is Success <==> exists|i: int| 0 <= i < log.len() && #[trigger] log[i] is Done
            &&& attempts <= max_retries + 1
            &&& forall|i: int|
                0 <= i < attempts ==> #[trigger] log[i] == (ProgressView::Started { id, total })
            &&& log.len() == attempts + if ending is Success {
                1int
            } else {
                0
            }
        }),
{
    let log = fetch_log(id, total, transferred, max_retries, outcomes);
    let (attempts, ending) = crate::retry::run(max_retries, 0, outcomes);
    crate::retry::law_attempts_bounded(max_retries, 0, outcomes);
    if ending is Success {
        assert(log[attempts as int] is Done);
    }
}

/// How one attempt ended, given its value or the causes of its error.
pub open spec fn outcome_of<T>(attempt: Result<T, Seq<Cause>>) -> crate::retry::Outcome {
    match attempt {
        Ok(_) => crate::retry::Outcome::Success,
        Err(causes) => if crate::transient::transient_chain(causes) {
            crate::retry::Outcome::Transient
        } else {
            crate::retry::Outcome::Permanent
        },
    }
}

/// The value that a whole fetch gives, if it succeeds: that of its last attempt.
pub open spec fn fetch_value<T>(
    max_retries: nat,
    attempts: Seq<Result<T, Seq<Cause>>>,
) -> Option<T> {
    let outcomes = attempts.map_values(|attempt: Result<T, Seq<Cause>>| outcome_of(attempt));
    let (made, ending) = crate::retry::run(max_retries, 0, outcomes);
    if ending is Success {
        Some(attempts[made - 1]->Ok_0)
    } else {
        None
    }
}

/// Failed attempts leave no trace in the result: a fetch that fails transiently no more
/// often than the policy allows and then succeeds gives what a single good attempt
/// gives.
pub proof fn law_failed_attempts_leave_no_trace<T>(
    max_retries: nat,
    attempts: Seq<Result<T, Seq<Cause>>>,
    failures: nat,
)
    requires
        failures <= max_retries,
        failures < attempts.len(),
        forall|i: int| 0 <= i < failures ==> outcome_of(#[trigger] attempts[i]) is Transient,
        attempts[failures as int] is Ok,
    ensures
        fetch_value(max_retries, attempts) == Some(attempts[failures as int]->Ok_0),
        fetch_value(max_retries, attempts) == fetch_value(
            max_retries,
            seq![attempts[failures as int]],
        ),
{
    let outcome = |attempt: Result<T, Seq<Cause>>| outcome_of(attempt);
    let outcomes = attempts.map_values(outcome);
    assert forall|i: int| 0 <= i < failures implies #[trigger] outcomes[i] is Transient by {
        assert(outcome_of(attempts[i]) is Transient);
    }
    crate::retry::law_first_decisive_outcome_ends(max_retries, 0, outcomes, failures);
    let single = seq![attempts[failures as int]];
    assert(single.map_values(outcome)[0] is Success);
}

/// A layer is retried as any operation is: the same failure after as many retries ends
/// both with the same error, or has both retried with the same number and delay. The
/// fetch that goes on is that of the same layer, with the same policy.
pub proof fn law_layers_are_retried_as_all_operations_are(
    attempt: LayerAttempt,
    causes: Seq<Cause>,
    after: AfterFailure,
    action: RetryAction,
    retries_after: nat,
)
    requires
        attempt.attempts() >= 1,
        fetch_goes_on(attempt, causes, after),
        crate::retry::follows(
            attempt.policy(),
            (attempt.attempts() - 1) as nat,
            causes,
            action,
            retries_after,
        ),
    ensures
        match after {
            AfterFailure::Stop { context: None } => action is Fail,
            AfterFailure::Stop { context: Some(text) } => action matches RetryAction::GiveUp {
                context,
            } && context@ == text@,
            AfterFailure::Again { fetch, number: n, exponential: delay } => {
                &&& action matches RetryAction::Retry { number, exponential } && number == n
                    && exponential@ == delay@
                &&& fetch.id() == attempt.id()
                &&& fetch.total() == attempt.total()
                &&& fetch.policy() == attempt.policy()
                &&& fetch.attempts() == retries_after
                &&& fetch.log() == attempt.log()
            },
        },
{
}

/// What joining the import with the verdict of the proxy gives, and out of what: a value
/// only out of that value and a good verdict, and each failure only out of the errors
/// that it holds.
pub proof fn law_what_an_attempt_comes_to<T, I, P>(
    imported: Result<T, I>,
    verdict: Result<(), P>,
    value: T,
    proxy: P,
    import: I,
)
    ensures
        verified(imported, verdict) == Ok::<T, BlobFailure<I, P>>(value) <==> imported == Ok::<
            T,
            I,
        >(value) && verdict is Ok,
        verified(imported, verdict) == Err::<T, BlobFailure<I, P>>(BlobFailure::Import(import))
            <==> imported == Err::<T, I>(import) && verdict is Ok,
        verified(imported, verdict) == Err::<T, BlobFailure<I, P>>(BlobFailure::Proxy(proxy))
            <==> imported is Ok && verdict == Err::<(), P>(proxy),
        verified(imported, verdict) == Err::<T, BlobFailure<I, P>>(
            BlobFailure::Both { proxy, import },
        ) <==> imported == Err::<T, I>(import) && verdict == Err::<(), P>(proxy),
        verdict_first(imported, verdict) == Ok::<T, BlobFailure<I, P>>(value) <==> imported == Ok::<
            T,
            I,
        >(value) && verdict is Ok,
        verdict_first(imported, verdict) == Err::<T, BlobFailure<I, P>>(
            BlobFailure::Import(import),
        ) <==> imported == Err::<T, I>(import) && verdict is Ok,
        verdict_first(imported, verdict) == Err::<T, BlobFailure<I, P>>(BlobFailure::Proxy(proxy))
            <==> verdict == Err::<(), P>(proxy),
{
}

/// What verified data is registered as: a tar layer as the stream that it became, with
/// the statistics of its import and the size of its descriptor; any other blob as a
/// reference to its object, with one object counted under the way it was stored, and
/// its bytes there unless it was there before.
pub proof fn law_what_is_registered<ObjectID>(
    object_id: ObjectID,
    stats: ImportStats,
    method: ObjectStoreMethod,
    size: u64,
    descriptor_size: u64,
)
    ensures
        registration_of(Imported::Tar(object_id, stats), descriptor_size) == (
        Registration::Stream { object_id, stats, transferred: descriptor_size }),
        registration_of(Imported::Blob(object_id, size, method), descriptor_size) matches
            Registration::Reference { content_type, object_id: id, size: n, stats: s, transferred }
            && {
            &&& content_type == 0x626f_6c62_5f69_636f
            &&& id == object_id
            &&& n == size
            &&& transferred == size
            &&& s.objects_copied + s.objects_reflinked + s.objects_hardlinked
                + s.objects_already_present == 1
            &&& s.objects_copied == 1 <==> method is Copied
            &&& s.objects_reflinked == 1 <==> method is Reflinked
            &&& s.objects_hardlinked == 1 <==> method is Hardlinked
            &&& s.objects_already_present == 1 <==> method is AlreadyPresent
            &&& s.bytes_copied == size * s.objects_copied
            &&& s.bytes_reflinked == size * s.objects_reflinked
            &&& s.bytes_hardlinked == size * s.objects_hardlinked
        },
{
    assert(size * 1 == size) by (nonlinear_arith);
    assert(size * 0 == 0) by (nonlinear_arith);
}

/// Statistics are added number by number, nothing is added by an import that did
/// nothing, and a sum is refused exactly when one of its numbers is too large.
pub proof fn law_statistics_are_added_number_by_number(a: ImportStats, b: ImportStats)
    ensures
        summed(a, no_stats()) == a,
        sum_fits(a, no_stats()),
        summed(a, b) == summed(b, a),
        sum_fits(a, b) <==> sum_fits(b, a),
        sum_fits(a, b) ==> {
            let sum = summed(a, b);
            &&& sum.objects_copied == a.objects_copied + b.objects_copied
            &&& sum.bytes_copied == a.bytes_copied + b.bytes_copied
            &&& sum.objects_reflinked == a.objects_reflinked + b.objects_reflinked
            &&& sum.bytes_reflinked == a.bytes_reflinked + b.bytes_reflinked
            &&& sum.objects_hardlinked == a.objects_hardlinked + b.objects_hardlinked
            &&& sum.bytes_hardlinked == a.bytes_hardlinked + b.bytes_hardlinked
            &&& sum.objects_already_present == a.objects_already_present
                + b.objects_already_present
        },
        !sum_fits(a, b) ==> {
            ||| a.objects_copied + b.objects_copied > u64::MAX
            ||| a.bytes_copied + b.bytes_copied > u64::MAX
            ||| a.objects_reflinked + b.objects_reflinked > u64::MAX
            ||| a.bytes_reflinked + b.bytes_reflinked > u64::MAX
            ||| a.objects_hardlinked + b.objects_hardlinked > u64::MAX
            ||| a.bytes_hardlinked + b.bytes_hardlinked > u64::MAX
            ||| a.objects_already_present + b.objects_already_present > u64::MAX
        },
{
}

/// The total of no imports is nothing, that of one is its own, and that of two lists
/// joined is the sum of theirs.
pub proof fn law_totals_are_sums(
    a: Seq<ImportStats>,
    b: Seq<ImportStats>,
    one: ImportStats,
    x: ImportStats,
    y: ImportStats,
)
    ensures
        are_totals(seq![], x) <==> x == no_stats(),
        are_totals(seq![one], x) <==> x == one,
        are_totals(a, x) && are_totals(b, y) && sum_fits(x, y) ==> are_totals(a + b, summed(x, y)),
        no_stats() == (ImportStats {
            objects_copied: 0,
            bytes_copied: 0,
            objects_reflinked: 0,
            bytes_reflinked: 0,
            objects_hardlinked: 0,
            bytes_hardlinked: 0,
            objects_already_present: 0,
        }),
{
    reveal_with_fuel(total, 2);
    assert(seq![one].drop_last() =~= seq![]);
    lemma_total_of_both(a, b, |s: ImportStats| s.objects_copied as nat);
    lemma_total_of_both(a, b, |s: ImportStats| s.bytes_copied as nat);
    lemma_total_of_both(a, b, |s: ImportStats| s.objects_reflinked as nat);
    lemma_total_of_both(a, b, |s: ImportStats| s.bytes_reflinked as nat);
    lemma_total_of_both(a, b, |s: ImportStats| s.objects_hardlinked as nat);
    lemma_total_of_both(a, b, |s: ImportStats| s.bytes_hardlinked as nat);
    lemma_total_of_both(a, b, |s: ImportStats| s.objects_already_present as nat);
}

proof fn lemma_total_of_both(
    a: Seq<ImportStats>,
    b: Seq<ImportStats>,
    number: spec_fn(ImportStats) -> nat,
)
    ensures
        total(a + b, number) == total(a, number) + total(b, number),
    decreases b.len(),
{
    if b.len() == 0 {
        assert(a + b =~= a);
    } else {
        lemma_total_of_both(a, b.drop_last(), number);
        assert((a + b).drop_last() =~= a + b.drop_last());
    }
}

/// A layer blob is registered exactly when it was imported and the proxy has verified its
/// transfer, and as what it was imported as; else the attempt fails with the errors of
/// those that failed.
pub proof fn law_only_verified_blobs_are_registered<ObjectID, I, P>(
    imported: Result<Imported<ObjectID>, I>,
    verdict: Result<(), P>,
    descriptor_size: u64,
)
    ensures
        match (imported, verdict) {
            (Ok(value), Ok(_)) => import_outcome(imported, verdict, descriptor_size) == Ok::<
                Registration<ObjectID>,
                BlobFailure<I, P>,
            >(registration_of(value, descriptor_size)),
            (Err(import), Ok(_)) => import_outcome(imported, verdict, descriptor_size) == Err::<
                Registration<ObjectID>,
                BlobFailure<I, P>,
            >(BlobFailure::Import(import)),
            (Ok(_), Err(proxy)) => import_outcome(imported, verdict, descriptor_size) == Err::<
                Registration<ObjectID>,
                BlobFailure<I, P>,
            >(BlobFailure::Proxy(proxy)),
            (Err(import), Err(proxy)) => import_outcome(imported, verdict, descriptor_size)
                == Err::<Registration<ObjectID>, BlobFailure<I, P>>(
                BlobFailure::Both { proxy, import },
            ),
        },
{
}

/// An attempt is reported under the name of its layer, with the layer's size when it
/// starts and with what was transferred when it is done; it keeps the layer, the policy
/// and the value, and is counted.
pub proof fn law_attempts_are_reported<T>(
    fetch: LayerFetch,
    started: (LayerAttempt, ProgressEvent),
    value: T,
    transferred: u64,
    fetched: (T, ProgressEvent),
)
    requires
        begins(fetch, started),
        finishes(started.0, value, transferred, fetched),
    ensures
        started.1 matches ProgressEvent::Started { id, total } && id@ == fetch.id() && total
            == fetch.total(),
        fetched.1 matches ProgressEvent::Done { id, transferred: bytes } && id@ == fetch.id()
            && bytes == transferred,
        fetched.0 == value,
        started.0.policy() == fetch.policy(),
        started.0.attempts() == fetch.attempts() + 1,
{
}

} // verus!
