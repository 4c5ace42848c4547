//! Image references: where an image is stored, and its name there.

use vstd::prelude::*;

verus! {

/// A backend for images.
#[derive(Debug, Clone, Copy, PartialEq, Eq, Structural)]
pub enum Transport {
    /// A remote registry (`registry:` or `docker://`).
    Registry,
    /// A local OCI directory (`oci:`).
    OciDir,
    /// A local OCI archive (`oci-archive:`).
    OciArchive,
    /// A local Docker archive (`docker-archive:`).
    DockerArchive,
    /// Local container storage (`containers-storage:`).
    ContainerStorage,
    /// A local directory (`dir:`).
    Dir,
    /// A local Docker daemon (`docker-daemon:`).
    DockerDaemon,
}

/// A transport and the name of an image in it.
#[derive(Debug)]
pub struct ImageReference {
    /// Where the image is stored.
    pub transport: Transport,
    /// Its name, in a form that depends on the transport.
    pub name: String,
}

/// The transport that a scheme stands for.
pub open spec fn transport_of(scheme: Seq<char>) -> Option<Transport> {
    if scheme == "registry"@ || scheme == "docker"@ {
        Some(Transport::Registry)
    } else if scheme == "oci"@ {
        Some(Transport::OciDir)
    } else if scheme == "oci-archive"@ {
        Some(Transport::OciArchive)
    } else if scheme == "docker-archive"@ {
        Some(Transport::DockerArchive)
    } else if scheme == "containers-storage"@ {
        Some(Transport::ContainerStorage)
    } else if scheme == "dir"@ {
        Some(Transport::Dir)
    } else if scheme == "docker-daemon"@ {
        Some(Transport::DockerDaemon)
    } else {
        None
    }
}

/// What an image reference stands for: its transport and name, or the message that
/// it is refused with. The scheme ends at the first colon, `docker` also wants two
/// slashes behind it, and the name must not be empty.
pub open spec fn parsed_reference(text: Seq<char>) -> Result<(Transport, Seq<char>), Seq<char>> {
    if !text.contains(':') {
        Err("Missing ':' in "@ + text)
    } else {
        let colon = text.index_of_first(':')->0;
        let scheme = text.take(colon);
        let rest = text.skip(colon + 1);
        match transport_of(scheme) {
            None => Err("Invalid transport: "@ + scheme),
            Some(transport) => if scheme == "docker"@ && !("//"@).is_prefix_of(rest) {
                Err("Missing // in docker:// in "@ + text)
            } else {
                let name = if scheme == "docker"@ {
                    rest.skip(2)
                } else {
                    rest
                };
                if name.len() == 0 {
                    Err("Invalid empty name in "@ + text)
                } else {
                    Ok((transport, name))
                }
            },
        }
    }
}

/// Whether a parsed reference is what the text stands for.
pub open spec fn is_parsed(parsed: Result<ImageReference, String>, text: Seq<char>) -> bool {
    match parsed {
        Ok(reference) => parsed_reference(text) == Ok::<_, Seq<char>>(
            (reference.transport, reference.name@),
        ),
        Err(message) => parsed_reference(text) == Err::<(Transport, Seq<char>), _>(message@),
    }
}

/// Trusted: `containers_image_proxy::ImageReference::try_from` splits a text at its
/// first colon into the scheme of a transport and a name, and refuses a text without
/// a colon, an unknown scheme, `docker` without two slashes and an empty name, each
/// with a message of its own.
#[verifier::external_body]
fn try_reference(text: &str) -> (parsed: Result<ImageReference, String>)
    ensures
        is_parsed(parsed, text@),
{
    let parsed = match containers_image_proxy::ImageReference::try_from(text) {
        Ok(parsed) => parsed,
        Err(err) => return Err(err.to_string()),
    };
    let transport = match parsed.transport {
        containers_image_proxy::Transport::Registry => Transport::Registry,
        containers_image_proxy::Transport::OciDir => Transport::OciDir,
        containers_image_proxy::Transport::OciArchive => Transport::OciArchive,
        containers_image_proxy::Transport::DockerArchive => Transport::DockerArchive,
        containers_image_proxy::Transport::ContainerStorage => Transport::ContainerStorage,
        containers_image_proxy::Transport::Dir => Transport::Dir,
        containers_image_proxy::Transport::DockerDaemon => Transport::DockerDaemon,
    };
    Ok(ImageReference { transport, name: parsed.name })
}

impl ImageReference {
    /// Parses a reference such as `docker://quay.io/example/image:tag`.
    pub fn parse(text: &str) -> (parsed: Result<Self, String>)
        ensures
            is_parsed(parsed, text@),
    {
        try_reference(text)
    }
}

/// Which schemes are known, and the transport of each.
pub proof fn law_schemes_stand_for_transports(scheme: Seq<char>)
    ensures
        transport_of(scheme) == Some(Transport::Registry) <==> scheme == "registry"@ || scheme
            == "docker"@,
        transport_of(scheme) == Some(Transport::OciDir) <==> scheme == "oci"@,
        transport_of(scheme) == Some(Transport::OciArchive) <==> scheme == "oci-archive"@,
        transport_of(scheme) == Some(Transport::DockerArchive) <==> scheme == "docker-archive"@,
        transport_of(scheme) == Some(Transport::ContainerStorage) <==> scheme
            == "containers-storage"@,
        transport_of(scheme) == Some(Transport::Dir) <==> scheme == "dir"@,
        transport_of(scheme) == Some(Transport::DockerDaemon) <==> scheme == "docker-daemon"@,
{
    reveal_strlit("registry");
    reveal_strlit("docker");
    reveal_strlit("oci");
    reveal_strlit("oci-archive");
    reveal_strlit("docker-archive");
    reveal_strlit("containers-storage");
    reveal_strlit("dir");
    reveal_strlit("docker-daemon");
    assert("registry"@.len() == 8 && "docker"@.len() == 6 && "oci"@.len() == 3);
    assert("oci-archive"@.len() == 11 && "docker-archive"@.len() == 14);
    assert("containers-storage"@.len() == 18 && "docker-daemon"@.len() == 13);
    assert("dir"@.len() == 3 && "oci"@[0] != "dir"@[0]);
}

/// A reference is read back: a known scheme, a colon and a name that is not empty, with
/// two slashes before it behind `docker`, stand for the transport of the scheme and that
/// name, whatever the name holds.
pub proof fn law_references_are_read_back(scheme: Seq<char>, name: Seq<char>)
    requires
        transport_of(scheme) is Some,
        name.len() > 0,
    ensures
        scheme != "docker"@ ==> parsed_reference(scheme + ":"@ + name) == Ok::<
            (Transport, Seq<char>),
            Seq<char>,
        >((transport_of(scheme)->0, name)),
        parsed_reference("docker://"@ + name) == Ok::<(Transport, Seq<char>), Seq<char>>(
            (Transport::Registry, name),
        ),
{
    reveal_strlit("docker://");
    reveal_strlit("docker");
    reveal_strlit("//");
    reveal_strlit(":");
    lemma_schemes_have_no_colon(scheme);
    let text = scheme + ":"@ + name;
    lemma_first_colon(scheme, name);
    assert(text.take(scheme.len() as int) =~= scheme);
    assert(text.skip(scheme.len() as int + 1) =~= name);
    let docker = "docker"@;
    let rest = "//"@ + name;
    let whole = "docker://"@ + name;
    assert(whole =~= docker + ":"@ + rest);
    lemma_schemes_have_no_colon(docker);
    lemma_first_colon(docker, rest);
    assert(whole.take(docker.len() as int) =~= docker);
    assert(whole.skip(docker.len() as int + 1) =~= rest);
    assert(rest.subrange(0, 2) =~= "//"@);
    assert(rest.skip(2) =~= name);
}

/// What was accepted as a reference is a known scheme, a colon and the name, with two
/// slashes between them behind `docker`; the name is not empty.
pub proof fn law_accepted_references_have_a_scheme(text: Seq<char>)
    requires
        parsed_reference(text) is Ok,
    ensures
        ({
            let (transport, name) = parsed_reference(text)->Ok_0;
            exists|scheme: Seq<char>|
                {
                    &&& !scheme.contains(':')
                    &&& #[trigger] transport_of(scheme) == Some(transport)
                    &&& name.len() > 0
                    &&& text == if scheme == "docker"@ {
                        scheme + "://"@ + name
                    } else {
                        scheme + ":"@ + name
                    }
                }
        }),
{
    reveal_strlit("://");
    reveal_strlit("//");
    reveal_strlit(":");
    text.index_of_first_ensures(':');
    let colon = text.index_of_first(':')->0;
    let scheme = text.take(colon);
    let (transport, name) = parsed_reference(text)->Ok_0;
    assert(!scheme.contains(':')) by {
        if scheme.contains(':') {
            let i = choose|i: int| 0 <= i < scheme.len() && scheme[i] == ':';
            assert(text[i] == ':');
        }
    }
    if scheme == "docker"@ {
        let rest = text.skip(colon + 1);
        assert(rest.subrange(0, 2) == "//"@);
        assert(rest[0] == rest.subrange(0, 2)[0]);
        assert(rest[1] == rest.subrange(0, 2)[1]);
        assert(text =~= scheme + "://"@ + name);
    } else {
        assert(text =~= scheme + ":"@ + name);
    }
    assert(transport_of(scheme) == Some(transport));
}

proof fn lemma_schemes_have_no_colon(scheme: Seq<char>)
    requires
        transport_of(scheme) is Some,
    ensures
        !scheme.contains(':'),
{
    reveal_strlit("registry");
    reveal_strlit("docker");
    reveal_strlit("oci");
    reveal_strlit("oci-archive");
    reveal_strlit("docker-archive");
    reveal_strlit("containers-storage");
    reveal_strlit("dir");
    reveal_strlit("docker-daemon");
    assert forall|i: int| 0 <= i < scheme.len() implies scheme[i] != ':' by {}
}

pub(crate) proof fn lemma_first_colon(scheme: Seq<char>, rest: Seq<char>)
    requires
        !scheme.contains(':'),
    ensures
        (scheme + ":"@ + rest).contains(':'),
        (scheme + ":"@ + rest).index_of_first(':') == Some(scheme.len() as int),
{
    reveal_strlit(":");
    let text = scheme + ":"@ + rest;
    assert(text[scheme.len() as int] == ':');
    text.index_of_first_ensures(':');
    let colon = text.index_of_first(':')->0;
    if colon < scheme.len() {
        assert(scheme[colon] == ':');
    } else if colon > scheme.len() {
        assert(!text.subrange(0, colon).contains(':'));
        assert(text.subrange(0, colon)[scheme.len() as int] == ':');
    }
}

} // verus!
