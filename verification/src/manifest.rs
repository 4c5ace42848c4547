//! Image manifests and the digests that name content.

use vstd::prelude::*;

use anyhow::Error;
use containers_image_proxy::oci_spec::image::{Descriptor as OciDescriptor, ImageManifest};
use std::collections::BTreeMap;

verus! {

/// A piece of content: its media type, digest and size.
#[derive(Debug)]
pub struct Descriptor {
    /// What the content is.
    pub media_type: String,
    /// The digest of the content.
    pub digest: String,
    /// Its size in bytes.
    pub size: u64,
}

/// What a [`Descriptor`] says, over texts.
pub struct DescriptorView {
    /// What the content is.
    pub media_type: Seq<char>,
    /// The digest of the content.
    pub digest: Seq<char>,
    /// Its size in bytes.
    pub size: u64,
}

impl View for Descriptor {
    type V = DescriptorView;

    open spec fn view(&self) -> DescriptorView {
        DescriptorView { media_type: self.media_type@, digest: self.digest@, size: self.size }
    }
}

/// A layer as a manifest lists it.
#[derive(Debug)]
pub struct ManifestLayer {
    /// The content of the layer.
    pub descriptor: Descriptor,
    /// Its optional properties (locations, annotations, platform, artifact type and
    /// embedded data), written out as one text.
    pub properties: String,
}

/// What a [`ManifestLayer`] says, over texts.
pub struct ManifestLayerView {
    /// The content of the layer.
    pub descriptor: DescriptorView,
    /// Its optional properties.
    pub properties: Seq<char>,
}

impl View for ManifestLayer {
    type V = ManifestLayerView;

    open spec fn view(&self) -> ManifestLayerView {
        ManifestLayerView { descriptor: self.descriptor@, properties: self.properties@ }
    }
}

/// An image manifest, as far as pulling an image reads it.
#[derive(Debug)]
pub struct Manifest {
    /// What kind of artifact this is, where it is one.
    pub artifact_type: Option<String>,
    /// The configuration of the image.
    pub config: Descriptor,
    /// The layers of the image, the base first.
    pub layers: Vec<ManifestLayer>,
}

/// What a [`Manifest`] says, over texts.
pub struct ManifestView {
    /// What kind of artifact this is.
    pub artifact_type: Option<Seq<char>>,
    /// The configuration of the image.
    pub config: DescriptorView,
    /// The layers of the image.
    pub layers: Seq<ManifestLayerView>,
}

/// The texts that an optional string holds.
pub open spec fn text_of(text: Option<String>) -> Option<Seq<char>> {
    match text {
        Some(t) => Some(t@),
        None => None,
    }
}

impl View for Manifest {
    type V = ManifestView;

    open spec fn view(&self) -> ManifestView {
        ManifestView {
            artifact_type: text_of(self.artifact_type),
            config: self.config@,
            layers: self.layers@.map_values(|layer: ManifestLayer| layer@),
        }
    }
}

/// What reading a manifest gave, over texts.
pub open spec fn view_of(manifest: Result<Manifest, String>) -> Result<ManifestView, Seq<char>> {
    match manifest {
        Ok(m) => Ok(m@),
        Err(message) => Err(message@),
    }
}

/// What `ImageManifest::from_reader` makes of the bytes of a manifest: the manifest,
/// or the message that it is refused with.
pub uninterp spec fn manifest_of(raw: Seq<u8>) -> Result<ManifestView, Seq<char>>;

/// Trusted: `oci_spec::image::ImageManifest::from_reader` depends on the bytes
/// alone. How JSON is read is left unsaid. An error is given with its cause, which
/// says where the JSON is malformed. What a layer's descriptor holds besides its
/// media type, digest and size goes into one text, which two layers share exactly
/// when all of that is the same; annotations are put in order for it, since they are
/// kept in a hash map.
#[verifier::external_body]
fn read_manifest(raw: &[u8]) -> (manifest: Result<Manifest, String>)
    ensures
        manifest_of(raw@) == view_of(manifest),
{
    let read = ImageManifest::from_reader(raw).map_err(|err| format!("{:#}", Error::from(err)))?;
    let layer = |d: &OciDescriptor| {
        let notes = d.annotations().as_ref().map(BTreeMap::from_iter);
        let others = (d.urls(), notes, d.platform(), d.artifact_type(), d.data());
        let descriptor = Descriptor {
            media_type: d.media_type().to_string(), digest: d.digest().to_string(), size: d.size() };
        ManifestLayer { descriptor, properties: format!("{others:?}") }
    };
    Ok(Manifest {
        artifact_type: read.artifact_type().as_ref().map(ToString::to_string),
        config: layer(read.config()).descriptor,
        layers: read.layers().iter().map(layer).collect(),
    })
}

impl Manifest {
    /// Reads a manifest in JSON, or gives the message that it is refused with.
    pub fn read(raw: &[u8]) -> (manifest: Result<Self, String>)
        ensures
            view_of(manifest) == manifest_of(raw@),
    {
        read_manifest(raw)
    }
}

/// Whether a character may stand in a part of an algorithm's name.
pub open spec fn is_component_char(c: char) -> bool {
    'a' <= c <= 'z' || '0' <= c <= '9'
}

/// Whether a character separates the parts of an algorithm's name.
pub open spec fn is_separator(c: char) -> bool {
    c == '+' || c == '.' || c == '_' || c == '-'
}

/// Whether a text names a digest algorithm: parts of lowercase letters and digits,
/// none of them empty, with a separator between two of them.
pub open spec fn is_algorithm(name: Seq<char>) -> bool {
    &&& name.len() > 0
    &&& forall|i: int|
        0 <= i < name.len() ==> is_component_char(#[trigger] name[i]) || is_separator(name[i])
    &&& !is_separator(name.first())
    &&& !is_separator(name.last())
    &&& forall|i: int, j: int|
        0 <= i && j == i + 1 && j < name.len() ==> !(is_separator(#[trigger] name[i])
            && is_separator(#[trigger] name[j]))
}

/// Whether a text can be the encoded value of a digest.
pub open spec fn is_encoded(value: Seq<char>) -> bool {
    &&& value.len() > 0
    &&& forall|i: int|
        0 <= i < value.len() ==> is_component_char(#[trigger] value[i]) || 'A' <= value[i] <= 'Z'
            || value[i] == '=' || value[i] == '_' || value[i] == '-'
}

/// Whether a text is that many lowercase hexadecimal digits.
pub open spec fn is_lower_hex(value: Seq<char>, len: nat) -> bool {
    &&& value.len() == len
    &&& forall|i: int|
        0 <= i < value.len() ==> '0' <= #[trigger] value[i] <= '9' || 'a' <= value[i] <= 'f'
}

/// Whether a text is a digest: an algorithm, a colon and an encoded value, which is
/// hexadecimal and of fixed length for the SHA-2 algorithms.
pub open spec fn is_digest(text: Seq<char>) -> bool {
    text.contains(':') && {
        let colon = text.index_of_first(':')->0;
        let algorithm = text.take(colon);
        let value = text.skip(colon + 1);
        &&& is_algorithm(algorithm)
        &&& is_encoded(value)
        &&& algorithm == "sha256"@ ==> is_lower_hex(value, 64)
        &&& algorithm == "sha384"@ ==> is_lower_hex(value, 96)
        &&& algorithm == "sha512"@ ==> is_lower_hex(value, 128)
    }
}

/// The message with which `Digest::try_from` refuses a text.
pub uninterp spec fn digest_refusal(text: Seq<char>) -> Seq<char>;

/// What parsing a digest gives: the text itself, or the message that it is refused
/// with.
pub open spec fn parsed_digest(text: Seq<char>) -> Result<Seq<char>, Seq<char>> {
    if is_digest(text) {
        Ok(text)
    } else {
        Err(digest_refusal(text))
    }
}

/// What a computation on texts gave.
pub open spec fn texts_of(result: Result<String, String>) -> Result<Seq<char>, Seq<char>> {
    match result {
        Ok(text) => Ok(text@),
        Err(message) => Err(message@),
    }
}

/// Trusted: `oci_spec::image::Digest::try_from` accepts exactly the texts that are
/// digests and keeps them. The wording of its refusals is left unsaid, beyond that
/// it depends on the text alone.
#[verifier::external_body]
fn try_digest(text: String) -> (digest: Result<String, String>)
    ensures
        texts_of(digest) == (if is_digest(text@) { Ok(text@) } else { Err(digest_refusal(text@)) }),
{
    match containers_image_proxy::oci_spec::image::Digest::try_from(text) {
        Ok(digest) => Ok(digest.to_string()),
        Err(err) => Err(err.to_string()),
    }
}

/// Parses a digest such as `sha256:` and 64 hexadecimal digits.
pub fn parse_digest(text: String) -> (digest: Result<String, String>)
    ensures
        texts_of(digest) == parsed_digest(text@),
{
    try_digest(text)
}

/// Whether a manifest is that of a delta artifact, from which layers are
/// reconstructed.
pub open spec fn delta_artifact(manifest: ManifestView) -> bool {
    manifest.artifact_type == Some("application/vnd.io.github.containers.oci-delta.v1"@)
}

/// Whether a manifest is that of a delta artifact.
pub fn is_delta_artifact(manifest: &Manifest) -> (delta: bool)
    ensures
        delta == delta_artifact(manifest@),
{
    match &manifest.artifact_type {
        Some(kind) => *kind == "application/vnd.io.github.containers.oci-delta.v1".to_owned(),
        None => false,
    }
}

/// A manifest that was fetched.
#[derive(Debug)]
pub struct FetchedManifest {
    /// The digest of the manifest.
    pub digest: String,
    /// The manifest.
    pub manifest: Manifest,
    /// Whether it is that of a delta artifact.
    pub delta: bool,
}

/// Why a manifest that was fetched is of no use.
#[derive(Debug)]
pub enum ManifestError {
    /// Its digest is invalid.
    Digest(String),
    /// It cannot be read.
    Manifest(String),
}

/// What is made of a manifest that was fetched, given what reading its bytes gives:
/// the digest is looked at first.
pub open spec fn examined(
    digest: Seq<char>,
    read: Result<ManifestView, Seq<char>>,
    fetched: Result<FetchedManifest, ManifestError>,
) -> bool {
    match fetched {
        Ok(f) => {
            &&& is_digest(digest)
            &&& f.digest@ == digest
            &&& read == Ok::<ManifestView, Seq<char>>(f.manifest@)
            &&& f.delta == delta_artifact(f.manifest@)
        },
        Err(ManifestError::Digest(message)) => {
            &&& !is_digest(digest)
            &&& message@ == digest_refusal(digest)
        },
        Err(ManifestError::Manifest(message)) => {
            &&& is_digest(digest)
            &&& read == Err::<ManifestView, Seq<char>>(message@)
        },
    }
}

/// Examines a manifest that was fetched, given its digest and what reading its bytes
/// gave.
pub fn examine_read(digest: String, read: Result<Manifest, String>) -> (fetched: Result<
    FetchedManifest,
    ManifestError,
>)
    ensures
        examined(digest@, view_of(read), fetched),
{
    let digest = match parse_digest(digest) {
        Ok(digest) => digest,
        Err(message) => return Err(ManifestError::Digest(message)),
    };
    match read {
        Ok(manifest) => {
            let delta = is_delta_artifact(&manifest);
            Ok(FetchedManifest { digest, manifest, delta })
        },
        Err(message) => Err(ManifestError::Manifest(message)),
    }
}

/// A manifest is used exactly when its digest is valid and it could be read, and then
/// with that digest and as it was read; it is a delta exactly when its artifact type says
/// so. The digest is looked at first.
pub proof fn law_which_manifests_are_used(
    digest: Seq<char>,
    read: Result<ManifestView, Seq<char>>,
    fetched: Result<FetchedManifest, ManifestError>,
)
    requires
        examined(digest, read, fetched),
    ensures
        fetched is Ok <==> is_digest(digest) && read is Ok,
        fetched matches Err(ManifestError::Digest(m)) ==> !is_digest(digest),
        fetched matches Err(ManifestError::Manifest(m)) ==> is_digest(digest) && read
            == Err::<ManifestView, Seq<char>>(m@),
        fetched matches Ok(f) ==> {
            &&& f.digest@ == digest
            &&& read->Ok_0 == f.manifest@
            &&& f.delta <==> (f.manifest.artifact_type matches Some(kind) && kind@
                == "application/vnd.io.github.containers.oci-delta.v1"@)
        },
{
}

/// Behind `sha256:` exactly 64 lowercase hexadecimal digits make a digest.
pub proof fn law_sha256_digests(value: Seq<char>)
    ensures
        is_digest("sha256"@ + ":"@ + value) <==> value.len() == 64 && forall|i: int|
            0 <= i < value.len() ==> '0' <= #[trigger] value[i] <= '9' || 'a' <= value[i] <= 'f',
{
    reveal_strlit("sha256");
    reveal_strlit("sha384");
    reveal_strlit("sha512");
    reveal_strlit(":");
    let name = "sha256"@;
    let text = name + ":"@ + value;
    assert(!name.contains(':'));
    crate::reference::lemma_first_colon(name, value);
    assert(text.take(6) =~= name);
    assert(text.skip(7) =~= value);
    assert(is_algorithm(name));
    assert(name[3] != "sha384"@[3]);
    assert(name[3] != "sha512"@[3]);
}

} // verus!
