//! Pulling an image: where it is read from, how the image proxy is started, and how
//! its configuration, layers and manifest fit together.

use vstd::prelude::*;

use crate::fetch::{ImportStats, ProgressEvent};
use crate::layers::{copy_descriptor, fetch_schedule, layer_refs, LayerRefsError, LayerTask};
use crate::manifest::{
    examine_read, Descriptor, FetchedManifest, Manifest, ManifestError, ManifestLayer,
};
use crate::reference::{ImageReference, Transport};
use crate::retry::RetryPolicy;
use crate::text::{append_decimal, strip_prefix};

verus! {

/// Result of pulling an image: the digests and stream identifiers of both its
/// manifest and its configuration.
#[derive(Debug, Clone)]
pub struct PullResult<ObjectID> {
    /// The content digest of the manifest.
    pub manifest_digest: String,
    /// The stream of the manifest.
    pub manifest_verity: ObjectID,
    /// The content digest of the configuration.
    pub config_digest: String,
    /// The stream of the configuration.
    pub config_verity: ObjectID,
}

/// The configuration in a result: its digest and its stream.
pub open spec fn config_part<ObjectID>(result: PullResult<ObjectID>) -> (String, ObjectID) {
    (result.config_digest, result.config_verity)
}

/// The manifest in a result: its digest and its stream.
pub open spec fn manifest_part<ObjectID>(result: PullResult<ObjectID>) -> (String, ObjectID) {
    (result.manifest_digest, result.manifest_verity)
}

impl<ObjectID> PullResult<ObjectID> {
    /// The digest and the stream of the configuration.
    pub fn into_config(self) -> (config: (String, ObjectID))
        ensures
            config == config_part(self),
    {
        (self.config_digest, self.config_verity)
    }

    /// The digest and the stream of the manifest.
    pub fn into_manifest(self) -> (manifest: (String, ObjectID))
        ensures
            manifest == manifest_part(self),
    {
        (self.manifest_digest, self.manifest_verity)
    }
}

/// What is told of a piece of content.
#[derive(Debug, Clone, Copy, PartialEq, Eq, Structural)]
pub enum Notice {
    /// A configuration is there already.
    HaveConfig,
    /// A configuration is fetched.
    FetchingConfig,
    /// A layer is fetched.
    FetchingLayer,
    /// Any other blob is fetched.
    FetchingBlob,
    /// A manifest is there already.
    HaveManifest,
    /// A manifest is stored.
    StoringManifest,
}

impl Notice {
    /// What is told before the digest.
    pub open spec fn prefix(self) -> Seq<char> {
        match self {
            Notice::HaveConfig => "Already have container config "@,
            Notice::FetchingConfig => "Fetching config "@,
            Notice::FetchingLayer => "Fetching layer "@,
            Notice::FetchingBlob => "Fetching blob "@,
            Notice::HaveManifest => "Already have manifest "@,
            Notice::StoringManifest => "Storing manifest "@,
        }
    }

    /// What is told of the content with a digest.
    pub fn about(&self, digest: &str) -> (message: String)
        ensures
            message@ == self.prefix() + digest@,
    {
        let mut message = match self {
            Notice::HaveConfig => "Already have container config ",
            Notice::FetchingConfig => "Fetching config ",
            Notice::FetchingLayer => "Fetching layer ",
            Notice::FetchingBlob => "Fetching blob ",
            Notice::HaveManifest => "Already have manifest ",
            Notice::StoringManifest => "Storing manifest ",
        }.to_owned();
        message.append(digest);
        message
    }
}

/// How the layout of a local image is kept.
#[derive(Debug, Clone, Copy, PartialEq, Eq, Structural)]
pub enum OciLayoutKind {
    /// As a directory.
    Directory,
    /// As a tar archive.
    Archive,
}

/// The layout that a transport reads without the image proxy, if any.
pub open spec fn layout_kind(transport: Transport) -> Option<OciLayoutKind> {
    match transport {
        Transport::OciDir => Some(OciLayoutKind::Directory),
        Transport::OciArchive => Some(OciLayoutKind::Archive),
        _ => None,
    }
}

/// An image that is about to be pulled.
#[derive(Debug)]
pub struct PullRequest {
    /// The image.
    pub reference: ImageReference,
    /// The layout it is kept in, where it may be read without the image proxy.
    pub layout: Option<OciLayoutKind>,
    /// How transient failures are retried.
    pub retry: RetryPolicy,
}

/// Whether a pull retries as asked: by the policy that is given, else by the default.
pub open spec fn retries_as_asked(asked: Option<RetryPolicy>, retry: RetryPolicy) -> bool {
    match asked {
        Some(policy) => retry == policy,
        None => crate::retry::is_default(retry),
    }
}

/// Whether this is what a text asks to be pulled.
pub open spec fn requests(
    imgref: Seq<char>,
    retry: Option<RetryPolicy>,
    request: Result<PullRequest, String>,
) -> bool {
    match request {
        Ok(r) => crate::reference::parsed_reference(imgref) == Ok::<_, Seq<char>>(
            (r.reference.transport, r.reference.name@),
        ) && r.layout == layout_kind(r.reference.transport) && retries_as_asked(retry, r.retry),
        Err(message) => crate::reference::parsed_reference(imgref) == Err::<
            (Transport, Seq<char>),
            _,
        >(message@),
    }
}

/// Parses what to pull, or gives the message that it is refused with. Without a policy
/// of its own a pull retries by the default one.
pub fn request_pull(imgref: &str, retry: Option<RetryPolicy>) -> (request: Result<
    PullRequest,
    String,
>)
    ensures
        requests(imgref@, retry, request),
{
    match ImageReference::parse(imgref) {
        Ok(reference) => {
            let layout = match reference.transport {
                Transport::OciDir => Some(OciLayoutKind::Directory),
                Transport::OciArchive => Some(OciLayoutKind::Archive),
                _ => None,
            };
            let retry = match retry {
                Some(policy) => policy,
                None => RetryPolicy::default(),
            };
            Ok(PullRequest { reference, layout, retry })
        },
        Err(message) => Err(message),
    }
}

/// Whether an image in a layout is read without the image proxy. A compressed archive
/// is only readable through the proxy; a path that does not exist stays on the direct
/// way, so that the error names the file.
pub open spec fn direct(kind: OciLayoutKind, exists_: bool, uncompressed: bool) -> bool {
    !(kind is Archive && exists_ && !uncompressed)
}

/// Whether an image in a layout is read without the image proxy, given whether its
/// path exists and whether it is a plain tar archive.
pub fn reads_directly(kind: OciLayoutKind, exists_: bool, uncompressed: bool) -> (direct: bool)
    ensures
        direct == self::direct(kind, exists_, uncompressed),
{
    let needs_proxy = match kind {
        OciLayoutKind::Archive => exists_ && !uncompressed,
        OciLayoutKind::Directory => false,
    };
    !needs_proxy
}

/// What the manifest itself is still to be tagged with, given what was asked for and
/// whether an image was made of it.
pub open spec fn manifest_tag<T>(image_made: bool, asked: Option<T>) -> Option<T> {
    if image_made {
        None
    } else {
        asked
    }
}

/// The name under which the manifest itself is still to be tagged: the one that was
/// asked for, unless an image was made of it, which is tagged already.
pub fn tag_for_manifest(image_made: bool, reference: Option<String>) -> (tag: Option<String>)
    ensures
        tag == manifest_tag(image_made, reference),
{
    if image_made {
        None
    } else {
        reference
    }
}

/// How many layers of a delta artifact are worked on at once: the next is fetched
/// while the one before it is applied.
pub const DELTA_CONCURRENCY: usize = 2;

/// Pulling one image through the image proxy.
#[derive(Debug)]
pub struct ImageOp {
    /// Where the image is stored.
    pub transport: Transport,
    /// How transient failures are retried.
    pub retry: RetryPolicy,
}

/// How the image proxy is started and which image it opens.
#[derive(Debug)]
pub struct OpenRequest {
    /// The command that runs the proxy, where one is to be set.
    pub skopeo_cmd: Option<Vec<String>>,
    /// The image to open.
    pub image_ref: ImageReference,
}

/// The name by which the proxy knows an image: in container storage a digest goes
/// without its algorithm.
pub open spec fn proxy_name(transport: Transport, name: Seq<char>) -> Seq<char> {
    if transport is ContainerStorage && ("sha256:"@).is_prefix_of(name) {
        name.skip(7)
    } else {
        name
    }
}

/// Whether the proxy has to be run in the user namespace of the container storage.
pub open spec fn needs_unshare(transport: Transport, is_root: bool, has_command: bool) -> bool {
    transport is ContainerStorage && !is_root && !has_command
}

/// The command that runs the proxy in the user namespace of the container storage.
pub open spec fn unshare_command() -> Seq<Seq<char>> {
    seq!["podman"@, "unshare"@, "skopeo"@]
}

fn unshare_skopeo() -> (command: Vec<String>)
    ensures
        command@.map_values(|word: String| word@) == unshare_command(),
{
    let mut command: Vec<String> = Vec::new();
    command.push("podman".to_owned());
    command.push("unshare".to_owned());
    command.push("skopeo".to_owned());
    assert(command@.map_values(|word: String| word@) =~= unshare_command());
    command
}

/// Whether this is how pulling an image is prepared.
pub open spec fn opens(
    image_ref: ImageReference,
    is_root: bool,
    has_command: bool,
    retry: RetryPolicy,
    prepared: (ImageOp, OpenRequest),
) -> bool {
    &&& prepared.0.transport == image_ref.transport
    &&& image_ref.transport is Registry ==> prepared.0.retry == retry
    &&& !(image_ref.transport is Registry) ==> {
        &&& prepared.0.retry.max_retries == 0
        &&& prepared.0.retry.initial_delay@ == 0
        &&& prepared.0.retry.max_delay@ == 0
    }
    &&& prepared.1.image_ref.transport == image_ref.transport
    &&& prepared.1.image_ref.name@ == proxy_name(image_ref.transport, image_ref.name@)
    &&& match prepared.1.skopeo_cmd {
        Some(command) => {
            &&& needs_unshare(image_ref.transport, is_root, has_command)
            &&& command@.map_values(|word: String| word@) == unshare_command()
        },
        None => !needs_unshare(image_ref.transport, is_root, has_command),
    }
}

/// What to do about a layer.
#[derive(Debug)]
pub enum LayerAction<ObjectID> {
    /// It is there already: report that.
    Skip {
        /// The stream of the layer.
        layer: ObjectID,
        /// What the import did: nothing.
        stats: ImportStats,
        /// What to report.
        event: ProgressEvent,
    },
    /// Fetch this content.
    Fetch(Descriptor),
}

/// The content to fetch for a layer, or the message of an error: container storage
/// only has uncompressed layers, under descriptors of their own.
pub open spec fn layer_content(
    transport: Transport,
    descriptor: Descriptor,
    uncompressed: Option<&Vec<Descriptor>>,
    layer_idx: nat,
) -> Result<crate::manifest::DescriptorView, Seq<char>> {
    if transport is ContainerStorage {
        match uncompressed {
            None => Err("Failed to get uncompressed layer info"@),
            Some(layers) => if layer_idx < layers@.len() {
                Ok(layers@[layer_idx as int]@)
            } else {
                Err(
                    "Failed to get uncompressed layer info for layer index "@
                        + crate::text::decimal(layer_idx) + ". Total layers: "@
                        + crate::text::decimal(layers@.len()),
                )
            },
        }
    } else {
        Ok(descriptor@)
    }
}

/// Whether this is what is done about a layer.
pub open spec fn settles_layer<ObjectID>(
    transport: Transport,
    present: Option<ObjectID>,
    diff_id: Seq<char>,
    descriptor: Descriptor,
    uncompressed: Option<&Vec<Descriptor>>,
    layer_idx: nat,
    action: Result<LayerAction<ObjectID>, String>,
) -> bool {
    match present {
        Some(id) => action matches Ok(LayerAction::Skip { layer, stats, event }) && layer == id
            && stats == crate::fetch::no_stats() && event@ == (crate::fetch::ProgressView::Skipped {
            id: diff_id,
        }),
        None => match layer_content(transport, descriptor, uncompressed, layer_idx) {
            Ok(content) => action matches Ok(LayerAction::Fetch(d)) && d@ == content,
            Err(message) => action matches Err(m) && m@ == message,
        },
    }
}

/// The layers of an image that are to be fetched.
#[derive(Debug)]
pub struct LayerPlan {
    /// The fetches, in the order in which they are started.
    pub tasks: Vec<LayerTask>,
    /// Whether the uncompressed layers have to be asked for first.
    pub wants_layer_info: bool,
}

/// Whether this is how the layers of an image are planned to be fetched.
pub open spec fn plans_layers(
    transport: Transport,
    layers: Seq<ManifestLayer>,
    diff_ids: Seq<String>,
    plan: LayerPlan,
) -> bool {
    &&& crate::layers::is_schedule(
        layers,
        diff_ids,
        crate::layers::pair_count(layers, diff_ids),
        plan.tasks@,
    )
    &&& plan.wants_layer_info == (transport is ContainerStorage)
}

/// How the configuration of an image is come by.
#[derive(Debug)]
pub enum ConfigStep<ObjectID> {
    /// It is there already: report that and read it.
    Read {
        /// The stream of the configuration.
        config_id: ObjectID,
        /// What to report.
        event: ProgressEvent,
    },
    /// Report that it is fetched, and fetch it.
    Fetch {
        /// What is fetched, for messages about retries.
        what: String,
        /// What to report.
        event: ProgressEvent,
    },
}

/// Whether this is how the configuration with a digest is come by, given its stream
/// where it is there already.
pub open spec fn config_comes<ObjectID>(
    config_digest: Seq<char>,
    present: Option<ObjectID>,
    step: ConfigStep<ObjectID>,
) -> bool {
    match present {
        Some(id) => step matches ConfigStep::Read { config_id, event } && config_id == id && event@
            == crate::fetch::ProgressView::Message(Notice::HaveConfig.prefix() + config_digest),
        None => step matches ConfigStep::Fetch { what, event } && what@
            == Notice::FetchingConfig.prefix() + config_digest && event@
            == crate::fetch::ProgressView::Message(what@),
    }
}

/// A configuration with the layers of its image.
#[derive(Debug)]
pub struct ConfigWithLayers<ObjectID> {
    /// The content digest of the configuration.
    pub config_digest: String,
    /// The stream of the configuration.
    pub config_verity: ObjectID,
    /// The `diff_id` and the stream of each layer, in the order of the image.
    pub layer_refs: Vec<(String, ObjectID)>,
    /// What the import did.
    pub stats: ImportStats,
}

impl ImageOp {
    /// Prepares pulling an image, given whether the process runs as root and whether
    /// the configuration of the proxy names a command already. Only a registry fails
    /// transiently; for local transports a failure would just repeat.
    pub fn new(
        image_ref: ImageReference,
        is_root: bool,
        has_command: bool,
        retry: RetryPolicy,
    ) -> (prepared: (Self, OpenRequest))
        ensures
            opens(image_ref, is_root, has_command, retry, prepared),
    {
        let transport = image_ref.transport;
        let retry = match transport {
            Transport::Registry => retry,
            _ => RetryPolicy::none(),
        };
        let in_storage = match transport {
            Transport::ContainerStorage => true,
            _ => false,
        };
        let skopeo_cmd: Option<Vec<String>> = if in_storage && !is_root && !has_command {
            Some(unshare_skopeo())
        } else {
            None
        };
        proof {
            reveal_strlit("sha256:");
        }
        let name: String = if in_storage {
            match strip_prefix(image_ref.name.as_str(), "sha256:") {
                Some(hash) => hash.to_owned(),
                None => image_ref.name,
            }
        } else {
            image_ref.name
        };
        let image_ref = ImageReference { transport, name };
        (ImageOp { transport, retry }, OpenRequest { skopeo_cmd, image_ref })
    }

    /// Decides what to do about a layer, given its stream where it is there already.
    pub fn ensure_layer<ObjectID>(
        &self,
        present: Option<ObjectID>,
        diff_id: &str,
        descriptor: &Descriptor,
        uncompressed: Option<&Vec<Descriptor>>,
        layer_idx: usize,
    ) -> (action: Result<LayerAction<ObjectID>, String>)
        ensures
            settles_layer(
                self.transport,
                present,
                diff_id@,
                *descriptor,
                uncompressed,
                layer_idx as nat,
                action,
            ),
    {
        if let Some(layer) = present {
            return Ok(
                LayerAction::Skip {
                    layer,
                    stats: ImportStats::default(),
                    event: ProgressEvent::Skipped { id: diff_id.to_owned() },
                },
            );
        }
        match self.transport {
            Transport::ContainerStorage => {
                let layers = match uncompressed {
                    Some(layers) => layers,
                    None => return Err("Failed to get uncompressed layer info".to_owned()),
                };
                if layer_idx < layers.len() {
                    Ok(LayerAction::Fetch(copy_descriptor(&layers[layer_idx])))
                } else {
                    let mut message =
                        "Failed to get uncompressed layer info for layer index ".to_owned();
                    append_decimal(&mut message, layer_idx as u64);
                    message.append(". Total layers: ");
                    append_decimal(&mut message, layers.len() as u64);
                    Err(message)
                }
            },
            _ => Ok(LayerAction::Fetch(copy_descriptor(descriptor))),
        }
    }

    /// Decides how the configuration of an image is come by, given its stream where it
    /// is there already.
    pub fn config_step<ObjectID>(&self, config_digest: &str, present: Option<ObjectID>) -> (step:
        ConfigStep<ObjectID>)
        ensures
            config_comes(config_digest@, present, step),
    {
        match present {
            Some(config_id) => ConfigStep::Read {
                config_id,
                event: ProgressEvent::Message(Notice::HaveConfig.about(config_digest)),
            },
            None => {
                let what = Notice::FetchingConfig.about(config_digest);
                let event = ProgressEvent::Message(what.clone());
                ConfigStep::Fetch { what, event }
            },
        }
    }

    /// Decides how a pull goes on, given the digest and the bytes of the manifest that
    /// was fetched.
    pub fn pull(&self, digest: String, raw: &[u8]) -> (step: Result<PullStep, ManifestError>)
        ensures
            pulls(digest@, crate::manifest::manifest_of(raw@), step),
    {
        pull_read(digest, Manifest::read(raw))
    }

    /// Plans the fetch of the layers of an image whose configuration was fetched.
    pub fn plan_layers(&self, layers: &[ManifestLayer], diff_ids: &[String]) -> (plan: LayerPlan)
        ensures
            plans_layers(self.transport, layers@, diff_ids@, plan),
    {
        let wants_layer_info = match self.transport {
            Transport::ContainerStorage => true,
            _ => false,
        };
        LayerPlan { tasks: fetch_schedule(layers, diff_ids), wants_layer_info }
    }
}

/// A configuration that was fetched with its layers and is still to be written.
#[derive(Debug)]
pub struct UnwrittenConfig<ObjectID> {
    /// The content digest of the configuration.
    pub config_digest: String,
    /// The `diff_id` and the stream of each layer, in the order of the image, which
    /// the stream of the configuration refers to.
    pub layer_refs: Vec<(String, ObjectID)>,
    /// What the import did.
    pub stats: ImportStats,
}

/// A configuration with its stream.
pub open spec fn with_stream<ObjectID>(
    config: UnwrittenConfig<ObjectID>,
    config_verity: ObjectID,
) -> ConfigWithLayers<ObjectID> {
    ConfigWithLayers {
        config_digest: config.config_digest,
        config_verity,
        layer_refs: config.layer_refs,
        stats: config.stats,
    }
}

impl<ObjectID> UnwrittenConfig<ObjectID> {
    /// The configuration once it was written as a stream.
    pub fn written(self, config_verity: ObjectID) -> (config: ConfigWithLayers<ObjectID>)
        ensures
            config == with_stream(self, config_verity),
    {
        ConfigWithLayers {
            config_digest: self.config_digest,
            config_verity,
            layer_refs: self.layer_refs,
            stats: self.stats,
        }
    }
}

/// Whether collecting the layers of an image failed with this error.
pub open spec fn layers_refused<ObjectID>(
    diff_ids: Seq<String>,
    verities: Seq<(String, ObjectID)>,
    expected: nat,
    err: LayerRefsError,
) -> bool {
    match err {
        LayerRefsError::Missing(diff_id) => exists|i: int|
            #[trigger] crate::layers::first_missing(diff_ids, verities, i) && diff_id@
                == diff_ids[i]@,
        LayerRefsError::Count { expected: e, got } => {
            &&& !crate::layers::some_missing(diff_ids, verities)
            &&& e == expected
            &&& got == diff_ids.len()
            &&& got != expected
        },
    }
}

/// Whether every layer of an image has its stream, and there are as many as its
/// manifest lists.
pub open spec fn layers_complete<ObjectID>(
    diff_ids: Seq<String>,
    verities: Seq<(String, ObjectID)>,
    expected: nat,
) -> bool {
    !crate::layers::some_missing(diff_ids, verities) && diff_ids.len() == expected
}

/// Whether this is what putting together a configuration that is there already gives.
pub open spec fn is_cached<ObjectID: Clone>(
    config_digest: Seq<char>,
    layer_count: nat,
    config_id: ObjectID,
    diff_ids: Seq<String>,
    named_refs: Seq<(String, ObjectID)>,
    cached: Result<ConfigWithLayers<ObjectID>, LayerRefsError>,
) -> bool {
    &&& cached is Ok <==> layers_complete(diff_ids, named_refs, layer_count)
    &&& match cached {
        Ok(c) => {
            &&& c.config_digest@ == config_digest
            &&& c.config_verity == config_id
            &&& crate::layers::are_layer_refs(diff_ids, named_refs, c.layer_refs@)
            &&& c.stats == crate::fetch::no_stats()
        },
        Err(err) => layers_refused(diff_ids, named_refs, layer_count, err),
    }
}

/// Puts together a configuration that is there already, from its stream, the
/// `diff_id`s it lists and the streams it refers to.
pub fn cached_config<ObjectID: Clone>(
    config: &Descriptor,
    layer_count: usize,
    config_id: ObjectID,
    diff_ids: &[String],
    named_refs: &[(String, ObjectID)],
) -> (cached: Result<ConfigWithLayers<ObjectID>, LayerRefsError>)
    ensures
        is_cached(
            config.digest@,
            layer_count as nat,
            config_id,
            diff_ids@,
            named_refs@,
            cached,
        ),
{
    match layer_refs(diff_ids, named_refs, layer_count) {
        Ok(refs) => Ok(
            ConfigWithLayers {
                config_digest: config.digest.clone(),
                config_verity: config_id,
                layer_refs: refs,
                stats: ImportStats::default(),
            },
        ),
        Err(err) => Err(err),
    }
}

/// Whether this is what putting together a configuration that was fetched gives.
pub open spec fn is_fetched<ObjectID: Clone>(
    config_digest: Seq<char>,
    layer_count: nat,
    diff_ids: Seq<String>,
    verities: Seq<(String, ObjectID)>,
    stats: ImportStats,
    fetched: Result<UnwrittenConfig<ObjectID>, LayerRefsError>,
) -> bool {
    &&& fetched is Ok <==> layers_complete(diff_ids, verities, layer_count)
    &&& match fetched {
        Ok(c) => {
            &&& c.config_digest@ == config_digest
            &&& crate::layers::are_layer_refs(diff_ids, verities, c.layer_refs@)
            &&& c.stats == stats
        },
        Err(err) => layers_refused(diff_ids, verities, layer_count, err),
    }
}

/// Puts together a configuration that was fetched, from the `diff_id`s it lists and
/// the streams of its layers in the order in which they finished.
pub fn fetched_config<ObjectID: Clone>(
    config: &Descriptor,
    layer_count: usize,
    diff_ids: &[String],
    verities: &[(String, ObjectID)],
    stats: ImportStats,
) -> (fetched: Result<UnwrittenConfig<ObjectID>, LayerRefsError>)
    ensures
        is_fetched(
            config.digest@,
            layer_count as nat,
            diff_ids@,
            verities@,
            stats,
            fetched,
        ),
{
    match layer_refs(diff_ids, verities, layer_count) {
        Ok(refs) => Ok(
            UnwrittenConfig { config_digest: config.digest.clone(), layer_refs: refs, stats },
        ),
        Err(err) => Err(err),
    }
}

/// Whether cloning an identifier gives that identifier.
pub open spec fn clone_keeps<ObjectID: Clone>() -> bool {
    forall|a: ObjectID, b: ObjectID| #[trigger] cloned(a, b) ==> a == b
}

/// A second call on a configuration that the first one fetched and stored finds it
/// there, and gives back the same digest, stream and references in the same order,
/// with nothing imported. `named_refs` are the references that the stored stream
/// holds: those that were written, in whatever order they are read.
pub proof fn law_stored_config_is_given_back<ObjectID: Clone>(
    config_digest: Seq<char>,
    layer_count: nat,
    diff_ids: Seq<String>,
    verities: Seq<(String, ObjectID)>,
    stats: ImportStats,
    first: Result<UnwrittenConfig<ObjectID>, LayerRefsError>,
    config_id: ObjectID,
    named_refs: Seq<(String, ObjectID)>,
    step: ConfigStep<ObjectID>,
    second: Result<ConfigWithLayers<ObjectID>, LayerRefsError>,
)
    requires
        clone_keeps::<ObjectID>(),
        is_fetched(config_digest, layer_count, diff_ids, verities, stats, first),
        first is Ok,
        crate::layers::same_entries(named_refs, first->Ok_0.layer_refs@),
        config_comes(config_digest, Some(config_id), step),
        is_cached(config_digest, layer_count, config_id, diff_ids, named_refs, second),
    ensures
        step matches ConfigStep::Read { config_id: id, event } && id == config_id && event@
            == crate::fetch::ProgressView::Message(Notice::HaveConfig.prefix() + config_digest),
        second matches Ok(c) && {
            &&& c.config_digest@ == first->Ok_0.config_digest@
            &&& c.config_verity == config_id
            &&& crate::layers::same_refs(c.layer_refs@, first->Ok_0.layer_refs@)
            &&& c.stats == crate::fetch::no_stats()
        },
{
    let refs = first->Ok_0.layer_refs@;
    crate::layers::law_refs_are_read_back_in_order(diff_ids, verities, refs, named_refs);
    if let Ok(c) = second {
        assert forall|i: int| 0 <= i < refs.len() implies (#[trigger] c.layer_refs@[i]).0@
            == refs[i].0@ && c.layer_refs@[i].1 == refs[i].1 by {
            assert(diff_ids[i]@ == refs[i].0@);
        }
    }
}

/// Reading a configuration that is there already gives the same result each time.
pub proof fn law_cached_config_is_determined<ObjectID: Clone>(
    config_digest: Seq<char>,
    layer_count: nat,
    config_id: ObjectID,
    diff_ids: Seq<String>,
    named_refs: Seq<(String, ObjectID)>,
    first: Result<ConfigWithLayers<ObjectID>, LayerRefsError>,
    second: Result<ConfigWithLayers<ObjectID>, LayerRefsError>,
)
    requires
        clone_keeps::<ObjectID>(),
        is_cached(config_digest, layer_count, config_id, diff_ids, named_refs, first),
        is_cached(config_digest, layer_count, config_id, diff_ids, named_refs, second),
        first is Ok,
    ensures
        second matches Ok(c) && {
            &&& c.config_digest@ == first->Ok_0.config_digest@
            &&& c.config_verity == first->Ok_0.config_verity
            &&& crate::layers::same_refs(c.layer_refs@, first->Ok_0.layer_refs@)
            &&& c.stats == first->Ok_0.stats
        },
{
    if let Ok(c) = second {
        let refs = first->Ok_0.layer_refs@;
        assert forall|i: int| 0 <= i < refs.len() implies (#[trigger] c.layer_refs@[i]).0@
            == refs[i].0@ && c.layer_refs@[i].1 == refs[i].1 by {
            assert(diff_ids[i]@ == refs[i].0@);
        }
    }
}

/// How a pull goes on from the manifest.
#[derive(Debug)]
pub enum PullStep {
    /// Apply a delta artifact, with that many layers worked on at once.
    Delta {
        /// The manifest of the artifact.
        fetched: FetchedManifest,
        /// What to report.
        event: ProgressEvent,
        /// How many layers are worked on at once.
        concurrency: usize,
    },
    /// Pull the configuration and the layers of an image.
    Image {
        /// The manifest of the image.
        fetched: FetchedManifest,
    },
}

/// Whether this is how a pull goes on, given the manifest's digest and what reading
/// its bytes gives.
pub open spec fn pulls(
    digest: Seq<char>,
    read: Result<crate::manifest::ManifestView, Seq<char>>,
    step: Result<PullStep, ManifestError>,
) -> bool {
    match step {
        Ok(PullStep::Delta { fetched, event, concurrency }) => {
            &&& crate::manifest::examined(digest, read, Ok(fetched))
            &&& fetched.delta
            &&& event@ == crate::fetch::ProgressView::Message("Detected delta artifact..."@)
            &&& concurrency == DELTA_CONCURRENCY
        },
        Ok(PullStep::Image { fetched }) => {
            &&& crate::manifest::examined(digest, read, Ok(fetched))
            &&& !fetched.delta
        },
        Err(err) => crate::manifest::examined(digest, read, Err(err)),
    }
}

/// Decides how a pull goes on, given the manifest's digest and what reading its bytes
/// gave.
pub fn pull_read(digest: String, read: Result<Manifest, String>) -> (step: Result<
    PullStep,
    ManifestError,
>)
    ensures
        pulls(digest@, crate::manifest::view_of(read), step),
{
    match examine_read(digest, read) {
        Ok(fetched) => Ok(
            if fetched.delta {
                PullStep::Delta {
                    fetched,
                    event: ProgressEvent::Message("Detected delta artifact...".to_owned()),
                    concurrency: DELTA_CONCURRENCY,
                }
            } else {
                PullStep::Image { fetched }
            },
        ),
        Err(err) => Err(err),
    }
}

/// What to do with the manifest once the rest of the image is stored.
#[derive(Debug)]
pub enum ManifestStep<ObjectID> {
    /// It is there already: report that.
    Have {
        /// The stream of the manifest.
        manifest_verity: ObjectID,
        /// What to report.
        event: ProgressEvent,
    },
    /// Report that it is stored, and store it with these references.
    Store {
        /// The streams that the stream of the manifest refers to, by name.
        named_refs: Vec<(String, ObjectID)>,
        /// What to report.
        event: ProgressEvent,
    },
}

/// Whether these are the streams that the stream of a manifest refers to: that of the
/// configuration under `config:` and its digest, then those of the layers in the order
/// of the image.
pub open spec fn are_manifest_refs<ObjectID: Clone>(
    config_digest: Seq<char>,
    config_verity: ObjectID,
    layer_refs: Seq<(String, ObjectID)>,
    refs: Seq<(String, ObjectID)>,
) -> bool {
    &&& refs.len() == layer_refs.len() + 1
    &&& refs[0].0@ == "config:"@ + config_digest
    &&& cloned(config_verity, refs[0].1)
    &&& forall|i: int|
        0 <= i < layer_refs.len() ==> (#[trigger] refs[i + 1]).0@ == layer_refs[i].0@ && cloned(
            layer_refs[i].1,
            refs[i + 1].1,
        )
}

fn manifest_refs<ObjectID: Clone>(config_digest: &str, config: &ConfigWithLayers<ObjectID>) -> (refs:
    Vec<(String, ObjectID)>)
    ensures
        are_manifest_refs(config_digest@, config.config_verity, config.layer_refs@, refs@),
{
    let mut refs: Vec<(String, ObjectID)> = Vec::new();
    let mut config_key = "config:".to_owned();
    config_key.append(config_digest);
    refs.push((config_key, config.config_verity.clone()));
    let mut i: usize = 0;
    while i < config.layer_refs.len()
        invariant
            i <= config.layer_refs@.len(),
            are_manifest_refs(
                config_digest@,
                config.config_verity,
                config.layer_refs@.take(i as int),
                refs@,
            ),
        decreases config.layer_refs@.len() - i,
    {
        let ghost before = refs@;
        refs.push((config.layer_refs[i].0.clone(), config.layer_refs[i].1.clone()));
        assert forall|j: int| 0 <= j < i + 1 implies (#[trigger] refs@[j + 1]).0@
            == config.layer_refs@[j].0@ && cloned(config.layer_refs@[j].1, refs@[j + 1].1) by {
            if j < i {
                assert(refs@[j + 1] == before[j + 1]);
                assert(config.layer_refs@.take(i as int)[j] == config.layer_refs@[j]);
            }
        }
        i = i + 1;
    }
    assert(config.layer_refs@.take(i as int) =~= config.layer_refs@);
    refs
}

/// Whether this is what is done with the manifest of an image.
pub open spec fn settles_manifest<ObjectID: Clone>(
    manifest_digest: Seq<char>,
    config_digest: Seq<char>,
    config: ConfigWithLayers<ObjectID>,
    present: Option<ObjectID>,
    step: ManifestStep<ObjectID>,
) -> bool {
    match present {
        Some(verity) => step matches ManifestStep::Have { manifest_verity, event }
            && manifest_verity == verity && event@ == crate::fetch::ProgressView::Message(
            Notice::HaveManifest.prefix() + manifest_digest,
        ),
        None => step matches ManifestStep::Store { named_refs, event } && are_manifest_refs(
            config_digest,
            config.config_verity,
            config.layer_refs@,
            named_refs@,
        ) && event@ == crate::fetch::ProgressView::Message(
            Notice::StoringManifest.prefix() + manifest_digest,
        ),
    }
}

/// Decides what to do with the manifest of an image whose configuration, with the
/// digest that the manifest gives it, and layers are stored.
pub fn manifest_step<ObjectID: Clone>(
    manifest_digest: &str,
    config_digest: &str,
    config: &ConfigWithLayers<ObjectID>,
    present: Option<ObjectID>,
) -> (step: ManifestStep<ObjectID>)
    ensures
        settles_manifest(manifest_digest@, config_digest@, *config, present, step),
{
    match present {
        Some(manifest_verity) => ManifestStep::Have {
            manifest_verity,
            event: ProgressEvent::Message(Notice::HaveManifest.about(manifest_digest)),
        },
        None => ManifestStep::Store {
            named_refs: manifest_refs(config_digest, config),
            event: ProgressEvent::Message(Notice::StoringManifest.about(manifest_digest)),
        },
    }
}

/// What a pull gives, with what the import did.
pub open spec fn pull_result<ObjectID>(
    config: ConfigWithLayers<ObjectID>,
    manifest_digest: String,
    manifest_verity: ObjectID,
) -> (PullResult<ObjectID>, ImportStats) {
    (
        PullResult {
            manifest_digest,
            manifest_verity,
            config_digest: config.config_digest,
            config_verity: config.config_verity,
        },
        config.stats,
    )
}

impl<ObjectID> ConfigWithLayers<ObjectID> {
    /// The result of a pull, once the manifest is stored too.
    pub fn pulled(self, manifest_digest: String, manifest_verity: ObjectID) -> (pulled: (
        PullResult<ObjectID>,
        ImportStats,
    ))
        ensures
            pulled == pull_result(self, manifest_digest, manifest_verity),
    {
        let result = PullResult {
            manifest_digest,
            manifest_verity,
            config_digest: self.config_digest,
            config_verity: self.config_verity,
        };
        (result, self.stats)
    }
}

/// An image is opened under its own name, but that a digest in container storage goes
/// without `sha256:`; on a registry with the retries that are asked for, elsewhere with
/// none; and with `podman unshare skopeo` exactly for container storage, where the
/// process is not root and has no command of its own.
pub proof fn law_how_an_image_is_opened(
    image_ref: ImageReference,
    is_root: bool,
    has_command: bool,
    retry: RetryPolicy,
    prepared: (ImageOp, OpenRequest),
)
    requires
        opens(image_ref, is_root, has_command, retry, prepared),
    ensures
        ({
            let (op, open) = prepared;
            let name = image_ref.name@;
            let opened = open.image_ref.name@;
            let in_storage = image_ref.transport == Transport::ContainerStorage;
            let is_digest = name.len() >= 7 && name.take(7) == "sha256:"@;
            &&& op.transport == image_ref.transport
            &&& open.image_ref.transport == image_ref.transport
            &&& !in_storage ==> opened == name
            &&& in_storage && !is_digest ==> opened == name
            &&& in_storage && is_digest ==> "sha256:"@ + opened == name
            &&& image_ref.transport == Transport::Registry ==> op.retry == retry
            &&& image_ref.transport != Transport::Registry ==> op.retry.max_retries == 0
            &&& open.skopeo_cmd is Some <==> in_storage && !is_root && !has_command
            &&& open.skopeo_cmd matches Some(command) ==> command@.len() == 3 && command@[0]@
                == "podman"@ && command@[1]@ == "unshare"@ && command@[2]@ == "skopeo"@
        }),
{
    reveal_strlit("sha256:");
    let name = image_ref.name@;
    let opened = prepared.1.image_ref.name@;
    if name.len() >= 7 {
        assert(name.take(7) =~= name.subrange(0, 7));
        assert(name.take(7) + name.skip(7) =~= name);
    }
    if let Some(command) = prepared.1.skopeo_cmd {
        let words = command@.map_values(|word: String| word@);
        assert(words.len() == 3);
        assert(words[0] == command@[0]@ && words[1] == command@[1]@ && words[2] == command@[2]@);
    }
}

/// A failure of an image that is not on a registry is never retried.
pub proof fn law_only_a_registry_is_retried(
    image_ref: ImageReference,
    is_root: bool,
    has_command: bool,
    retry: RetryPolicy,
    prepared: (ImageOp, OpenRequest),
    outcomes: Seq<crate::retry::Outcome>,
)
    requires
        opens(image_ref, is_root, has_command, retry, prepared),
        image_ref.transport != Transport::Registry,
    ensures
        crate::retry::run(prepared.0.retry.max_retries as nat, 0, outcomes).0 <= 1,
{
    crate::retry::law_attempts_bounded(0, 0, outcomes);
}

/// A layer that is there is skipped and reported as such, whatever else is known of it.
/// One that is not is fetched: in container storage by the uncompressed descriptor at
/// its index, and else by its own. It fails only in container storage, where there are
/// no uncompressed descriptors or none at its index.
pub proof fn law_how_a_layer_is_fetched<ObjectID>(
    transport: Transport,
    present: Option<ObjectID>,
    diff_id: Seq<char>,
    descriptor: Descriptor,
    uncompressed: Option<&Vec<Descriptor>>,
    layer_idx: nat,
    action: Result<LayerAction<ObjectID>, String>,
)
    requires
        settles_layer(
            transport,
            present,
            diff_id,
            descriptor,
            uncompressed,
            layer_idx,
            action,
        ),
    ensures
        present matches Some(id) ==> (action matches Ok(LayerAction::Skip { layer, stats, event })
            && layer == id && stats.objects_copied == 0 && stats.bytes_copied == 0
            && stats.objects_reflinked == 0 && stats.bytes_reflinked == 0
            && stats.objects_hardlinked == 0 && stats.bytes_hardlinked == 0
            && stats.objects_already_present == 0 && (event matches ProgressEvent::Skipped {
                id: name,
            } && name@ == diff_id)),
        present is None && transport != Transport::ContainerStorage ==> (action matches Ok(
            LayerAction::Fetch(d),
        ) && d.digest@ == descriptor.digest@ && d.media_type@ == descriptor.media_type@ && d.size
            == descriptor.size),
        present is None && transport == Transport::ContainerStorage ==> {
            &&& uncompressed is None ==> (action matches Err(m) && m@
                == "Failed to get uncompressed layer info"@)
            &&& uncompressed matches Some(layers) ==> layer_idx < layers@.len() ==> (
            action matches Ok(LayerAction::Fetch(d)) && d.digest@
                == layers@[layer_idx as int].digest@ && d.media_type@
                == layers@[layer_idx as int].media_type@ && d.size
                == layers@[layer_idx as int].size)
            &&& uncompressed matches Some(layers) ==> layer_idx >= layers@.len() ==> (
            action matches Err(m) && m@ == "Failed to get uncompressed layer info for layer index "@
                + (crate::text::decimal(layer_idx) + (". Total layers: "@ + crate::text::decimal(
                layers@.len(),
            ))))
        },
{
    if let Some(layers) = uncompressed {
        assert("Failed to get uncompressed layer info for layer index "@ + crate::text::decimal(
            layer_idx,
        ) + ". Total layers: "@ + crate::text::decimal(layers@.len()) =~=
            "Failed to get uncompressed layer info for layer index "@ + (crate::text::decimal(
            layer_idx,
        ) + (". Total layers: "@ + crate::text::decimal(layers@.len()))));
    }
}

/// Two missing layers of one image in container storage are fetched by the same
/// descriptor only if those at their indexes are the same.
pub proof fn law_layers_of_different_indexes_are_told_apart<ObjectID>(
    diff_id: Seq<char>,
    descriptor: Descriptor,
    layers: &Vec<Descriptor>,
    i: nat,
    j: nat,
    first: Result<LayerAction<ObjectID>, String>,
    second: Result<LayerAction<ObjectID>, String>,
)
    requires
        i < layers@.len(),
        j < layers@.len(),
        layers@[i as int].digest@ != layers@[j as int].digest@,
        settles_layer(
            Transport::ContainerStorage,
            None,
            diff_id,
            descriptor,
            Some(layers),
            i,
            first,
        ),
        settles_layer(
            Transport::ContainerStorage,
            None,
            diff_id,
            descriptor,
            Some(layers),
            j,
            second,
        ),
    ensures
        first->Ok_0->Fetch_0.digest@ != second->Ok_0->Fetch_0.digest@,
{
    let storage = Transport::ContainerStorage;
    law_how_a_layer_is_fetched(storage, None, diff_id, descriptor, Some(layers), i, first);
    law_how_a_layer_is_fetched(storage, None, diff_id, descriptor, Some(layers), j, second);
}

/// What an accepted text asks for follows from its scheme: exactly `oci` is read as a
/// directory, exactly `oci-archive` as an archive, and each other one through the image
/// proxy. The retries are those that are asked for, else three.
pub proof fn law_what_is_requested(
    imgref: Seq<char>,
    retry: Option<RetryPolicy>,
    request: Result<PullRequest, String>,
    scheme: Seq<char>,
    rest: Seq<char>,
)
    requires
        requests(imgref, retry, request),
        request is Ok,
        !scheme.contains(':'),
        imgref == scheme + ":"@ + rest,
    ensures
        ({
            let r = request->Ok_0;
            &&& r.layout == Some(OciLayoutKind::Directory) <==> scheme == "oci"@
            &&& r.layout == Some(OciLayoutKind::Archive) <==> scheme == "oci-archive"@
            &&& r.layout is None <==> {
                ||| scheme == "registry"@
                ||| scheme == "docker"@
                ||| scheme == "docker-archive"@
                ||| scheme == "containers-storage"@
                ||| scheme == "dir"@
                ||| scheme == "docker-daemon"@
            }
            &&& crate::reference::transport_of(scheme) == Some(r.reference.transport)
            &&& scheme == "docker"@ ==> rest == "//"@ + r.reference.name@
            &&& scheme != "docker"@ ==> rest == r.reference.name@
            &&& retry matches Some(policy) ==> r.retry == policy
            &&& retry is None ==> r.retry.max_retries == 3
        }),
{
    reveal_strlit(":");
    reveal_strlit("//");
    crate::reference::lemma_first_colon(scheme, rest);
    assert(imgref.take(scheme.len() as int) =~= scheme);
    assert(imgref.skip(scheme.len() as int + 1) =~= rest);
    crate::reference::law_schemes_stand_for_transports(scheme);
    if scheme == "docker"@ {
        assert(rest.subrange(0, 2) + rest.skip(2) =~= rest);
    }
}

/// Every accepted text has a scheme, so that [`law_what_is_requested`] speaks of it.
pub proof fn law_every_request_has_a_scheme(
    imgref: Seq<char>,
    retry: Option<RetryPolicy>,
    request: Result<PullRequest, String>,
)
    requires
        requests(imgref, retry, request),
    ensures
        request is Ok ==> exists|scheme: Seq<char>, rest: Seq<char>|
            !scheme.contains(':') && imgref == #[trigger] (scheme + ":"@ + rest),
        request is Ok <==> crate::reference::parsed_reference(imgref) is Ok,
{
    if request is Ok {
        reveal_strlit(":");
        imgref.index_of_first_ensures(':');
        let colon = imgref.index_of_first(':')->0;
        let scheme = imgref.take(colon);
        let rest = imgref.skip(colon + 1);
        assert(imgref =~= scheme + ":"@ + rest);
        if scheme.contains(':') {
            let i = choose|i: int| 0 <= i < scheme.len() && scheme[i] == ':';
            assert(imgref[i] == ':');
        }
    }
}

/// A directory is always read without the proxy, and an archive unless it is there and
/// compressed.
pub proof fn law_which_layouts_are_read_directly(exists_: bool, uncompressed: bool)
    ensures
        direct(OciLayoutKind::Directory, exists_, uncompressed),
        direct(OciLayoutKind::Archive, exists_, uncompressed) <==> !exists_ || uncompressed,
{
}

/// The manifest is tagged with what was asked for exactly when no image was made of it.
pub proof fn law_the_name_is_given_once<T>(asked: Option<T>)
    ensures
        manifest_tag(false, asked) == asked,
        manifest_tag(true, asked) is None,
{
}

/// The layers are fetched as scheduled, and the uncompressed ones asked for exactly in
/// container storage.
pub proof fn law_how_layers_are_planned(
    transport: Transport,
    layers: Seq<ManifestLayer>,
    diff_ids: Seq<String>,
    plan: LayerPlan,
)
    requires
        plans_layers(transport, layers, diff_ids, plan),
        layers.len() == diff_ids.len(),
    ensures
        plan.tasks@.len() == layers.len(),
        forall|slot: int|
            0 <= slot < layers.len() ==> #[trigger] crate::layers::has_slot(plan.tasks@, slot),
        forall|i: int|
            0 <= i < plan.tasks@.len() ==> (#[trigger] plan.tasks@[i]).diff_id@
                == diff_ids[plan.tasks@[i].slot as int]@,
        plan.wants_layer_info <==> transport == Transport::ContainerStorage,
{
    crate::layers::law_how_layers_are_scheduled(layers, diff_ids, plan.tasks@);
}

/// A configuration that is there is read, and one that is not is fetched; either is told
/// with its digest.
pub proof fn law_how_a_config_is_come_by<ObjectID>(
    digest: Seq<char>,
    present: Option<ObjectID>,
    step: ConfigStep<ObjectID>,
)
    requires
        config_comes(digest, present, step),
    ensures
        step is Read <==> present is Some,
        step matches ConfigStep::Read { config_id, event } ==> present == Some(config_id)
            && (event matches ProgressEvent::Message(text) && text@
            == "Already have container config "@ + digest),
        step matches ConfigStep::Fetch { what, event } ==> what@ == "Fetching config "@ + digest
            && (event matches ProgressEvent::Message(text) && text@ == what@),
{
}

/// A manifest that is there is kept, and one that is not is stored, with a reference to
/// the configuration under its digest and then to each layer in order; either is told
/// with its digest.
pub proof fn law_how_a_manifest_is_settled<ObjectID: Clone>(
    digest: Seq<char>,
    config_digest: Seq<char>,
    config: ConfigWithLayers<ObjectID>,
    present: Option<ObjectID>,
    step: ManifestStep<ObjectID>,
)
    requires
        clone_keeps::<ObjectID>(),
        settles_manifest(digest, config_digest, config, present, step),
    ensures
        step is Have <==> present is Some,
        step matches ManifestStep::Have { manifest_verity, event } ==> present == Some(
            manifest_verity,
        ) && (event matches ProgressEvent::Message(text) && text@ == "Already have manifest "@
            + digest),
        step matches ManifestStep::Store { named_refs, event } ==> {
            &&& event matches ProgressEvent::Message(text) && text@ == "Storing manifest "@ + digest
            &&& named_refs@.len() == config.layer_refs@.len() + 1
            &&& named_refs@[0].0@ == "config:"@ + config_digest
            &&& named_refs@[0].1 == config.config_verity
            &&& crate::layers::same_refs(named_refs@.skip(1), config.layer_refs@)
        },
{
    if let ManifestStep::Store { named_refs, event } = step {
        let rest = named_refs@.skip(1);
        assert forall|i: int| 0 <= i < rest.len() implies (#[trigger] rest[i]).0@
            == config.layer_refs@[i].0@ && rest[i].1 == config.layer_refs@[i].1 by {
            assert(rest[i] == named_refs@[i + 1]);
        }
        assert(cloned(config.config_verity, named_refs@[0].1));
    }
}

/// How a pull goes on: it fails on an invalid digest first and then on a manifest that
/// cannot be read, with the message of that; else it goes on with that digest and
/// manifest, as a delta exactly when the manifest's artifact type says so, two layers at
/// once.
pub proof fn law_how_a_pull_goes_on(
    digest: Seq<char>,
    read: Result<crate::manifest::ManifestView, Seq<char>>,
    step: Result<PullStep, ManifestError>,
)
    requires
        pulls(digest, read, step),
    ensures
        step is Ok <==> crate::manifest::is_digest(digest) && read is Ok,
        step matches Err(ManifestError::Digest(m)) ==> !crate::manifest::is_digest(digest) && m@
            == crate::manifest::digest_refusal(digest),
        step matches Err(ManifestError::Manifest(m)) ==> crate::manifest::is_digest(digest) && read
            == Err::<crate::manifest::ManifestView, Seq<char>>(m@),
        step matches Ok(PullStep::Delta { fetched, event, concurrency }) ==> {
            &&& fetched.digest@ == digest
            &&& read->Ok_0 == fetched.manifest@
            &&& text_is(
                fetched.manifest.artifact_type,
                "application/vnd.io.github.containers.oci-delta.v1"@,
            )
            &&& event matches ProgressEvent::Message(text) && text@ == "Detected delta artifact..."@
            &&& concurrency == 2
        },
        step matches Ok(PullStep::Image { fetched }) ==> {
            &&& fetched.digest@ == digest
            &&& read->Ok_0 == fetched.manifest@
            &&& !text_is(
                fetched.manifest.artifact_type,
                "application/vnd.io.github.containers.oci-delta.v1"@,
            )
        },
{
}

/// Whether there is a text and it is this one.
pub open spec fn text_is(text: Option<String>, expected: Seq<char>) -> bool {
    text matches Some(t) && t@ == expected
}

/// When a configuration with its layers is complete: exactly when each of its `diff_id`s
/// has an entry and they are as many as the manifest lists layers.
pub proof fn law_when_a_config_is_complete<ObjectID: Clone>(
    config_digest: Seq<char>,
    layer_count: nat,
    config_id: ObjectID,
    diff_ids: Seq<String>,
    streams: Seq<(String, ObjectID)>,
    stats: ImportStats,
    cached: Result<ConfigWithLayers<ObjectID>, LayerRefsError>,
    fetched: Result<UnwrittenConfig<ObjectID>, LayerRefsError>,
)
    requires
        is_cached(config_digest, layer_count, config_id, diff_ids, streams, cached),
        is_fetched(config_digest, layer_count, diff_ids, streams, stats, fetched),
    ensures
        cached is Ok <==> fetched is Ok,
        cached is Ok <==> diff_ids.len() == layer_count && forall|i: int|
            0 <= i < diff_ids.len() ==> exists|j: int|
                0 <= j < streams.len() && (#[trigger] streams[j]).0@ == (#[trigger] diff_ids[i])@,
        cached matches Ok(c) ==> c.config_digest@ == config_digest && c.config_verity == config_id
            && c.layer_refs@.len() == diff_ids.len() && c.stats.bytes_copied == 0
            && c.stats.objects_copied == 0,
        fetched matches Ok(c) ==> c.config_digest@ == config_digest && c.layer_refs@.len()
            == diff_ids.len() && c.stats == stats,
        cached matches Err(LayerRefsError::Count { expected, got }) ==> expected == layer_count
            && got == diff_ids.len() && got != expected,
        fetched matches Err(LayerRefsError::Count { expected, got }) ==> expected == layer_count
            && got == diff_ids.len() && got != expected,
        cached matches Err(LayerRefsError::Missing(m)) ==> exists|i: int|
            #[trigger] crate::layers::first_missing(diff_ids, streams, i) && m@ == diff_ids[i]@,
        fetched matches Err(LayerRefsError::Missing(m)) ==> exists|i: int|
            #[trigger] crate::layers::first_missing(diff_ids, streams, i) && m@ == diff_ids[i]@,
        (cached matches Err(LayerRefsError::Count { expected, got })) ==> forall|i: int|
            0 <= i < diff_ids.len() ==> exists|j: int|
                0 <= j < streams.len() && (#[trigger] streams[j]).0@ == (#[trigger] diff_ids[i])@,
        (fetched matches Err(LayerRefsError::Count { expected, got })) ==> forall|i: int|
            0 <= i < diff_ids.len() ==> exists|j: int|
                0 <= j < streams.len() && (#[trigger] streams[j]).0@ == (#[trigger] diff_ids[i])@,
        cached matches Err(LayerRefsError::Missing(m)) ==> exists|i: int|
            0 <= i < diff_ids.len() && (#[trigger] diff_ids[i])@ == m@ && forall|j: int|
                0 <= j < streams.len() ==> (#[trigger] streams[j]).0@ != m@,
        fetched matches Err(LayerRefsError::Missing(m)) ==> exists|i: int|
            0 <= i < diff_ids.len() && (#[trigger] diff_ids[i])@ == m@ && forall|j: int|
                0 <= j < streams.len() ==> (#[trigger] streams[j]).0@ != m@,
{
    assert forall|i: int| 0 <= i < diff_ids.len() implies (crate::layers::last_under(
        streams,
        (#[trigger] diff_ids[i])@,
    ) is None <==> forall|j: int|
        0 <= j < streams.len() ==> (#[trigger] streams[j]).0@ != diff_ids[i]@) by {
        crate::layers::law_the_last_entry_counts(streams, diff_ids[i]@, 0);
    }
    if let Err(LayerRefsError::Missing(m)) = cached {
        let i = choose|i: int|
            #[trigger] crate::layers::first_missing(diff_ids, streams, i) && m@ == diff_ids[i]@;
        assert(diff_ids[i]@ == m@);
    }
    if let Err(LayerRefsError::Missing(m)) = fetched {
        let i = choose|i: int|
            #[trigger] crate::layers::first_missing(diff_ids, streams, i) && m@ == diff_ids[i]@;
        assert(diff_ids[i]@ == m@);
    }
}

/// What is told of content: what happens to it, and its digest.
pub proof fn law_what_is_told()
    ensures
        Notice::HaveConfig.prefix() == "Already have container config "@,
        Notice::FetchingConfig.prefix() == "Fetching config "@,
        Notice::FetchingLayer.prefix() == "Fetching layer "@,
        Notice::FetchingBlob.prefix() == "Fetching blob "@,
        Notice::HaveManifest.prefix() == "Already have manifest "@,
        Notice::StoringManifest.prefix() == "Storing manifest "@,
{
}

/// What went into a pull comes out of its result: the manifest that was stored, the
/// configuration as it was fetched with the stream it was written as, and the statistics
/// of its layers.
pub proof fn law_a_result_gives_back_what_was_pulled<ObjectID>(
    config: UnwrittenConfig<ObjectID>,
    config_verity: ObjectID,
    manifest_digest: String,
    manifest_verity: ObjectID,
)
    ensures
        ({
            let stored = with_stream(config, config_verity);
            let (result, stats) = pull_result(stored, manifest_digest, manifest_verity);
            &&& stored.layer_refs == config.layer_refs
            &&& config_part(result) == (config.config_digest, config_verity)
            &&& manifest_part(result) == (manifest_digest, manifest_verity)
            &&& stats == config.stats
        }),
{
}

} // verus!
