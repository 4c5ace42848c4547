//! Checking the options of a mount, and mounting only the image that is expected.

use vstd::prelude::*;

use crate::errno::ErrnoTable;

verus! {

/// Flag: fs-verity must be enabled on every file of the image.
pub const LCFS_MOUNT_FLAGS_REQUIRE_VERITY: u32 = 1;

/// Flag: map user and group identifiers as [`LcfsMountOptions::idmap_fd`] says.
pub const LCFS_MOUNT_FLAGS_IDMAP: u32 = 8;

/// Flag: check fs-verity where a file has it.
pub const LCFS_MOUNT_FLAGS_TRY_VERITY: u32 = 16;

/// All flags that are known.
pub const LCFS_MOUNT_FLAGS_MASK: u32 = 31;

/// What a mount that failed returns.
pub const MOUNT_FAILED: i32 = -1;

/// Stands for the descriptor of an image that is not open.
pub const NO_FD: i32 = -1;

/// Longest digest accepted as the expected one, in bytes.
pub const MAX_DIGEST_SIZE: usize = 64;

/// Options of a mount.
#[derive(Debug)]
pub struct LcfsMountOptions {
    /// Directories that hold the backing files; those left out are skipped.
    pub objdirs: Vec<Option<Vec<u8>>>,
    /// Work directory of a writable mount.
    pub workdir: Option<Vec<u8>>,
    /// Upper directory of a writable mount.
    pub upperdir: Option<Vec<u8>>,
    /// The fs-verity digest that the image must have, in hexadecimal.
    pub expected_fsverity_digest: Option<Vec<u8>>,
    /// A combination of the flags above.
    pub flags: u32,
    /// File descriptor of a user namespace, or a negative number.
    pub idmap_fd: i32,
}

/// The value of a hexadecimal digit.
pub open spec fn hex_value(c: u8) -> Option<nat> {
    if 48 <= c <= 57 {
        Some((c - 48) as nat)
    } else if 97 <= c <= 102 {
        Some((c - 87) as nat)
    } else if 65 <= c <= 70 {
        Some((c - 55) as nat)
    } else {
        None
    }
}

/// Whether the text is an even number of hexadecimal digits, for at most
/// [`MAX_DIGEST_SIZE`] bytes.
pub open spec fn is_hex_digest(hex: Seq<u8>) -> bool {
    &&& hex.len() % 2 == 0
    &&& hex.len() <= 2 * MAX_DIGEST_SIZE
    &&& forall|i: int| 0 <= i < hex.len() ==> hex_value(#[trigger] hex[i]) is Some
}

/// The bytes that pairs of hexadecimal digits stand for.
pub open spec fn hex_bytes(hex: Seq<u8>) -> Seq<u8> {
    Seq::new(
        hex.len() / 2,
        |i: int| (16 * hex_value(hex[2 * i])->0 + hex_value(hex[2 * i + 1])->0) as u8,
    )
}

/// The digest that a text stands for.
pub open spec fn hex_digest(hex: Seq<u8>) -> Option<Seq<u8>> {
    if is_hex_digest(hex) {
        Some(hex_bytes(hex))
    } else {
        None
    }
}

fn hex_digit(c: u8) -> (value: Option<u8>)
    ensures
        value is Some <==> hex_value(c) is Some,
        value matches Some(v) ==> v == hex_value(c)->0 && v < 16,
{
    if 48 <= c && c <= 57 {
        Some(c - 48)
    } else if 97 <= c && c <= 102 {
        Some(c - 87)
    } else if 65 <= c && c <= 70 {
        Some(c - 55)
    } else {
        None
    }
}

/// Parses a hex digest; `None` if it isn't an even number of hex digits of at most
/// [`MAX_DIGEST_SIZE`] bytes.
///
/// An empty text parses to an empty digest, which then never matches.
pub fn parse_hex_digest(hex: &[u8]) -> (digest: Option<Vec<u8>>)
    ensures
        digest is Some <==> hex_digest(hex@) is Some,
        digest matches Some(d) ==> d@ == hex_digest(hex@)->0,
{
    if hex.len() % 2 != 0 || hex.len() / 2 > MAX_DIGEST_SIZE {
        return None;
    }
    let mut digest: Vec<u8> = Vec::new();
    let mut i: usize = 0;
    while i < hex.len()
        invariant
            i <= hex@.len(),
            i % 2 == 0,
            hex@.len() % 2 == 0,
            hex@.len() <= 2 * MAX_DIGEST_SIZE,
            forall|j: int| 0 <= j < i ==> hex_value(#[trigger] hex@[j]) is Some,
            digest@.len() == i / 2,
            forall|j: int| 0 <= j < i / 2 ==> #[trigger] digest@[j] == hex_bytes(hex@)[j],
        decreases hex@.len() - i,
    {
        let high: u8 = match hex_digit(hex[i]) {
            Some(v) => v,
            None => return None,
        };
        let low: u8 = match hex_digit(hex[i + 1]) {
            Some(v) => v,
            None => return None,
        };
        digest.push(high * 16 + low);
        assert(hex_bytes(hex@)[i as int / 2] == high * 16 + low) by {
            assert(2 * (i as int / 2) == i);
        }
        i = i + 2;
    }
    assert(digest@ =~= hex_bytes(hex@));
    Some(digest)
}

/// Whether a bit is set.
pub open spec fn has_flag(flags: u32, flag: u32) -> bool {
    flags & flag != 0
}

/// Whether options are rejected before the expected digest is looked at: for an
/// unknown flag, an upper directory without a work directory or the reverse, or an
/// identifier mapping without a file descriptor.
pub open spec fn inconsistent(options: LcfsMountOptions) -> bool {
    ||| has_flag(options.flags, !LCFS_MOUNT_FLAGS_MASK)
    ||| (options.upperdir is Some) != (options.workdir is Some)
    ||| has_flag(options.flags, LCFS_MOUNT_FLAGS_IDMAP) && options.idmap_fd < 0
}

/// The expected image digest that options ask for, if any, or `Err` where the
/// options are invalid.
pub open spec fn expected_digest(options: Option<&LcfsMountOptions>) -> Result<
    Option<Seq<u8>>,
    (),
> {
    match options {
        None => Ok(None),
        Some(o) => if inconsistent(*o) {
            Err(())
        } else {
            match o.expected_fsverity_digest {
                None => Ok(None),
                Some(hex) => match hex_digest(hex@) {
                    Some(digest) => Ok(Some(digest)),
                    None => Err(()),
                },
            }
        },
    }
}

/// Whether an optional digest holds the bytes that are named.
pub open spec fn digest_is(digest: Option<Vec<u8>>, bytes: Option<Seq<u8>>) -> bool {
    match digest {
        Some(d) => bytes == Some(d@),
        None => bytes is None,
    }
}

/// Checks the options before mounting, returning the parsed expected image digest,
/// if any, or an error number.
pub fn validate_options(options: Option<&LcfsMountOptions>, errnos: &ErrnoTable) -> (checked:
    Result<Option<Vec<u8>>, i32>)
    ensures
        checked is Ok <==> expected_digest(options) is Ok,
        checked matches Ok(digest) ==> digest_is(digest, expected_digest(options)->Ok_0),
        checked matches Err(errno) ==> errno == errnos.einval,
{
    let opts = match options {
        None => return Ok(None),
        Some(opts) => opts,
    };
    if opts.flags & !LCFS_MOUNT_FLAGS_MASK != 0 || opts.upperdir.is_none()
        != opts.workdir.is_none() || (opts.flags & LCFS_MOUNT_FLAGS_IDMAP != 0 && opts.idmap_fd
        < 0) {
        return Err(errnos.einval);
    }
    match &opts.expected_fsverity_digest {
        None => Ok(None),
        Some(hex) => match parse_hex_digest(hex.as_slice()) {
            Some(digest) => Ok(Some(digest)),
            None => Err(errnos.einval),
        },
    }
}

/// How measuring the fs-verity digest of an image failed.
#[derive(Debug)]
pub enum MeasureVerityError {
    /// The image has no fs-verity digest.
    VerityMissing,
    /// The file system knows no fs-verity.
    FilesystemNotSupported,
    /// The digest was made with another algorithm.
    InvalidDigestAlgorithm,
    /// The digest has another size.
    InvalidDigestSize,
    /// The kernel refused, with an error number where there is one.
    Io(Option<i32>),
}

/// The error number for a digest that could not be measured.
pub open spec fn measure_errno(err: MeasureVerityError, errnos: ErrnoTable) -> i32 {
    match err {
        MeasureVerityError::VerityMissing => errnos.no_verity(),
        MeasureVerityError::FilesystemNotSupported => errnos.no_verity(),
        MeasureVerityError::InvalidDigestAlgorithm => errnos.wrong_verity(),
        MeasureVerityError::InvalidDigestSize => errnos.wrong_verity(),
        MeasureVerityError::Io(None) => errnos.eio,
        MeasureVerityError::Io(Some(errno)) => if errno == errnos.enodata || errno
            == errnos.eopnotsupp || errno == errnos.enotty {
            errnos.no_verity()
        } else {
            errno
        },
    }
}

/// The verdict on an image whose digest was measured: `Ok` for the expected one,
/// else an error number.
pub open spec fn digest_verdict(
    measured: Result<[u8; 32], MeasureVerityError>,
    expected: Seq<u8>,
    errnos: ErrnoTable,
) -> Result<(), i32> {
    match measured {
        Err(err) => Err(measure_errno(err, errnos)),
        Ok(found) => if found@ == expected {
            Ok(())
        } else {
            Err(errnos.wrong_verity())
        },
    }
}

fn same_bytes(a: &[u8], b: &[u8]) -> (same: bool)
    ensures
        same == (a@ == b@),
{
    if a.len() != b.len() {
        return false;
    }
    let mut i: usize = 0;
    while i < a.len()
        invariant
            i <= a@.len(),
            a@.len() == b@.len(),
            forall|j: int| 0 <= j < i ==> a@[j] == b@[j],
        decreases a@.len() - i,
    {
        if a[i] != b[i] {
            return false;
        }
        i = i + 1;
    }
    assert(a@ =~= b@);
    true
}

/// Checks the image's fs-verity digest, as measured by the kernel, against the
/// expected one.
pub fn verify_image_digest(
    measured: Result<[u8; 32], MeasureVerityError>,
    expected: &[u8],
    errnos: &ErrnoTable,
) -> (verdict: Result<(), i32>)
    ensures
        verdict == digest_verdict(measured, expected@, *errnos),
{
    match measured {
        Ok(found) => {
            if same_bytes(found.as_slice(), expected) {
                Ok(())
            } else {
                Err(errnos.eilseq)
            }
        },
        Err(err) => Err(
            match err {
                MeasureVerityError::VerityMissing
                | MeasureVerityError::FilesystemNotSupported => errnos.enotty,
                MeasureVerityError::InvalidDigestAlgorithm
                | MeasureVerityError::InvalidDigestSize => errnos.eilseq,
                MeasureVerityError::Io(None) => errnos.eio,
                MeasureVerityError::Io(Some(errno)) => if errno == errnos.enodata || errno
                    == errnos.eopnotsupp || errno == errnos.enotty {
                    errnos.enotty
                } else {
                    errno
                },
            },
        ),
    }
}

/// The error number for a mount that failed: the one that the kernel gave, or that of
/// an invalid argument where it gave none.
pub fn io_error_to_errno(raw_os_error: Option<i32>, errnos: &ErrnoTable) -> (errno: i32)
    ensures
        errno == match raw_os_error {
            Some(raw) => raw,
            None => errnos.einval,
        },
{
    match raw_os_error {
        Some(raw) => raw,
        None => errnos.einval,
    }
}

/// Whether files of a mount must have fs-verity digests.
#[derive(Debug, Clone, Copy, PartialEq, Eq, Structural)]
pub enum VerityRequirement {
    /// They are not checked.
    Disabled,
    /// They are checked where there are any.
    Try,
    /// Every file must have one.
    Required,
}

/// What the flags say of fs-verity: a requirement goes before an attempt.
pub open spec fn verity_of(flags: u32) -> VerityRequirement {
    if has_flag(flags, LCFS_MOUNT_FLAGS_REQUIRE_VERITY) {
        VerityRequirement::Required
    } else if has_flag(flags, LCFS_MOUNT_FLAGS_TRY_VERITY) {
        VerityRequirement::Try
    } else {
        VerityRequirement::Disabled
    }
}

/// The directories that are given, in their order.
pub open spec fn given_dirs(dirs: Seq<Option<Vec<u8>>>) -> Seq<Seq<u8>>
    decreases dirs.len(),
{
    if dirs.len() == 0 {
        seq![]
    } else {
        let before = given_dirs(dirs.drop_last());
        match dirs.last() {
            Some(dir) => before.push(dir@),
            None => before,
        }
    }
}

/// The mount that is made.
#[derive(Debug)]
pub enum MountCall {
    /// The image alone.
    Erofs,
    /// The image with its backing files.
    Composefs {
        /// Directories that hold the backing files.
        basedirs: Vec<Vec<u8>>,
        /// Whether the files must have fs-verity digests.
        verity: VerityRequirement,
        /// File descriptor of the user namespace for an identifier mapping.
        idmap_fd: Option<i32>,
    },
}

/// What [`MountCall`] says, over the names of the directories.
pub enum MountCallView {
    /// The image alone.
    Erofs,
    /// The image with its backing files.
    Composefs {
        /// Directories that hold the backing files.
        basedirs: Seq<Seq<u8>>,
        /// Whether the files must have fs-verity digests.
        verity: VerityRequirement,
        /// File descriptor of the user namespace for an identifier mapping.
        idmap_fd: Option<i32>,
    },
}

impl View for MountCall {
    type V = MountCallView;

    open spec fn view(&self) -> MountCallView {
        match *self {
            MountCall::Erofs => MountCallView::Erofs,
            MountCall::Composefs { basedirs, verity, idmap_fd } => MountCallView::Composefs {
                basedirs: basedirs@.map_values(|dir: Vec<u8>| dir@),
                verity,
                idmap_fd,
            },
        }
    }
}

/// The mount that options ask for: with backing files where a directory for them
/// is given, else the image alone.
pub open spec fn requested_call(options: Option<&LcfsMountOptions>) -> MountCallView {
    match options {
        None => MountCallView::Erofs,
        Some(o) => {
            let basedirs = given_dirs(o.objdirs@);
            if basedirs.len() == 0 {
                MountCallView::Erofs
            } else {
                MountCallView::Composefs {
                    basedirs,
                    verity: verity_of(o.flags),
                    idmap_fd: if has_flag(o.flags, LCFS_MOUNT_FLAGS_IDMAP) && o.idmap_fd >= 0 {
                        Some(o.idmap_fd)
                    } else {
                        None
                    },
                }
            }
        },
    }
}

fn mount_call(options: Option<&LcfsMountOptions>) -> (call: MountCall)
    ensures
        call@ == requested_call(options),
{
    let opts = match options {
        None => return MountCall::Erofs,
        Some(opts) => opts,
    };
    let mut basedirs: Vec<Vec<u8>> = Vec::new();
    let mut i: usize = 0;
    while i < opts.objdirs.len()
        invariant
            i <= opts.objdirs@.len(),
            basedirs@.map_values(|dir: Vec<u8>| dir@) == given_dirs(opts.objdirs@.take(i as int)),
        decreases opts.objdirs@.len() - i,
    {
        let ghost names = |dir: Vec<u8>| dir@;
        let ghost so_far = basedirs@;
        assert(opts.objdirs@.take(i + 1).drop_last() =~= opts.objdirs@.take(i as int));
        if let Some(dir) = &opts.objdirs[i] {
            let copy: Vec<u8> = dir.clone();
            assert(copy@ =~= dir@);
            basedirs.push(copy);
            assert(basedirs@.map_values(names) =~= so_far.map_values(names).push(dir@));
        }
        i = i + 1;
    }
    assert(opts.objdirs@.take(i as int) =~= opts.objdirs@);
    assert(basedirs@.map_values(|dir: Vec<u8>| dir@).len() == basedirs@.len());
    if basedirs.len() == 0 {
        return MountCall::Erofs;
    }
    let verity = if opts.flags & LCFS_MOUNT_FLAGS_REQUIRE_VERITY != 0 {
        VerityRequirement::Required
    } else if opts.flags & LCFS_MOUNT_FLAGS_TRY_VERITY != 0 {
        VerityRequirement::Try
    } else {
        VerityRequirement::Disabled
    };
    let idmap_fd: Option<i32> = if opts.flags & LCFS_MOUNT_FLAGS_IDMAP != 0 && opts.idmap_fd >= 0 {
        Some(opts.idmap_fd)
    } else {
        None
    };
    MountCall::Composefs { basedirs, verity, idmap_fd }
}

/// What a mount comes to: what its caller is returned.
#[derive(Debug, Clone, Copy, PartialEq, Eq)]
pub struct MountReturn {
    /// Zero if the file system was attached, else minus one.
    pub code: i32,
    /// The error number to set; `None` on success, and where the call that failed has
    /// set it already.
    pub errno: Option<i32>,
}

/// The return of a mount that worked.
pub open spec fn worked() -> MountReturn {
    MountReturn { code: 0, errno: None }
}

/// The return of a mount that failed with an error number.
pub open spec fn failed_with(errno: i32) -> MountReturn {
    MountReturn { code: MOUNT_FAILED, errno: Some(errno) }
}

/// What came of an action.
#[derive(Debug)]
pub enum MountReply {
    /// It worked.
    Done,
    /// The image was opened, as this file descriptor.
    Opened(i32),
    /// The fs-verity digest of the image, or why it could not be measured.
    Measured(Result<[u8; 32], MeasureVerityError>),
    /// It failed with this error number.
    Errno(i32),
    /// It failed without an error number.
    NoErrno,
    /// It failed, and has set the error number itself.
    Reported,
}

/// What a mount returns after a reply that is none to go on with. One that does not
/// answer the action counts as an invalid argument.
pub open spec fn failure_of(reply: MountReply, errnos: ErrnoTable) -> MountReturn {
    match reply {
        MountReply::Errno(errno) => failed_with(errno),
        MountReply::Reported => MountReturn { code: MOUNT_FAILED, errno: None },
        _ => failed_with(errnos.einval),
    }
}

fn failure(reply: MountReply, errnos: &ErrnoTable) -> (returned: MountReturn)
    ensures
        returned == failure_of(reply, *errnos),
{
    match reply {
        MountReply::Reported => MountReturn { code: MOUNT_FAILED, errno: None },
        MountReply::Errno(errno) => MountReturn {
            code: MOUNT_FAILED,
            errno: Some(io_error_to_errno(Some(errno), errnos)),
        },
        _ => MountReturn { code: MOUNT_FAILED, errno: Some(io_error_to_errno(None, errnos)) },
    }
}

/// Where a mount stands.
#[derive(Debug, Clone, Copy)]
pub enum MountStage {
    /// The image is to be opened.
    Open,
    /// The descriptor of the image is to be duplicated.
    Duplicate,
    /// The digest of the image is to be measured.
    Measure,
    /// The directory of backing files with this index is to be opened.
    OpenDir(usize),
    /// The descriptor of the user namespace is to be duplicated.
    DuplicateIdmap,
    /// The mount is to be made.
    Make,
    /// The mount is to be attached.
    Attach,
    /// The image that was opened is to be closed, and this returned.
    Close(MountReturn),
    /// This is returned.
    Ended(MountReturn),
}

/// The state of a mount.
#[derive(Debug, Clone, Copy)]
pub struct MountState {
    /// The descriptor of the image, once there is one.
    pub fd: i32,
    /// Where the mount stands.
    pub stage: MountStage,
}

/// What is to be mounted.
pub struct MountPlan {
    /// Whether the image is given by its path, so that it is opened and closed here.
    pub by_path: bool,
    /// The digest that the image must have, if any.
    pub expected: Option<Seq<u8>>,
    /// The mount that is made.
    pub call: MountCallView,
}

/// The state with which a mount ends.
pub open spec fn end(plan: MountPlan, fd: i32, returned: MountReturn) -> MountState {
    MountState {
        fd,
        stage: if plan.by_path {
            MountStage::Close(returned)
        } else {
            MountStage::Ended(returned)
        },
    }
}

/// Where a mount goes on once the directories of backing files are open.
pub open spec fn stage_after_dirs(call: MountCallView) -> MountStage {
    match call {
        MountCallView::Composefs { basedirs, verity, idmap_fd: Some(_) } => {
            MountStage::DuplicateIdmap
        },
        _ => MountStage::Make,
    }
}

/// How many directories of backing files there are.
pub open spec fn dir_count(call: MountCallView) -> nat {
    match call {
        MountCallView::Erofs => 0,
        MountCallView::Composefs { basedirs, verity, idmap_fd } => basedirs.len(),
    }
}

/// Where a mount goes on once so many directories are open.
pub open spec fn stage_with_dirs(call: MountCallView, opened: nat) -> MountStage {
    if opened < dir_count(call) {
        MountStage::OpenDir(opened as usize)
    } else {
        stage_after_dirs(call)
    }
}

/// The state after a reply.
pub open spec fn after(
    plan: MountPlan,
    state: MountState,
    reply: MountReply,
    errnos: ErrnoTable,
) -> MountState {
    let fd = state.fd;
    let failed = end(plan, fd, failure_of(reply, errnos));
    match state.stage {
        MountStage::Open => match reply {
            MountReply::Opened(opened) if opened >= 0 => MountState {
                fd: opened,
                stage: MountStage::Duplicate,
            },
            _ => MountState { fd, stage: MountStage::Ended(failure_of(reply, errnos)) },
        },
        MountStage::Duplicate => match reply {
            MountReply::Done => MountState {
                fd,
                stage: if plan.expected is Some {
                    MountStage::Measure
                } else {
                    stage_with_dirs(plan.call, 0)
                },
            },
            _ => failed,
        },
        MountStage::Measure => match reply {
            MountReply::Measured(measured) => match digest_verdict(
                measured,
                plan.expected->0,
                errnos,
            ) {
                Ok(_) => MountState { fd, stage: stage_with_dirs(plan.call, 0) },
                Err(errno) => end(plan, fd, failed_with(errno)),
            },
            _ => failed,
        },
        MountStage::OpenDir(i) => match reply {
            MountReply::Done => MountState { fd, stage: stage_with_dirs(plan.call, i as nat + 1) },
            _ => failed,
        },
        MountStage::DuplicateIdmap => match reply {
            MountReply::Done => MountState { fd, stage: MountStage::Make },
            _ => failed,
        },
        MountStage::Make => match reply {
            MountReply::Done => MountState { fd, stage: MountStage::Attach },
            _ => failed,
        },
        MountStage::Attach => match reply {
            MountReply::Done => end(plan, fd, worked()),
            _ => failed,
        },
        MountStage::Close(returned) => MountState { fd, stage: MountStage::Ended(returned) },
        MountStage::Ended(returned) => state,
    }
}

/// What the caller of a mount does next.
#[derive(Debug)]
pub enum MountAction {
    /// Open the image.
    Open,
    /// Duplicate this descriptor of the image; what follows acts on the duplicate.
    Duplicate(i32),
    /// Measure the fs-verity digest of the image.
    Measure,
    /// Open this directory.
    OpenDir(Vec<u8>),
    /// Duplicate this descriptor of a user namespace, for the identifier mapping.
    DuplicateIdmap(i32),
    /// Make a mount of the image alone.
    MakeErofs,
    /// Make a mount of the image with the directories that were opened.
    MakeComposefs(VerityRequirement),
    /// Attach the mount.
    Attach,
    /// Close this descriptor of the image.
    Close(i32),
    /// Return.
    Return(MountReturn),
}

/// What a [`MountAction`] says, over the name of the directory.
pub enum MountActionView {
    /// Open the image.
    Open,
    /// Duplicate this descriptor of the image.
    Duplicate(i32),
    /// Measure the fs-verity digest of the image.
    Measure,
    /// Open this directory.
    OpenDir(Seq<u8>),
    /// Duplicate this descriptor of a user namespace.
    DuplicateIdmap(i32),
    /// Make a mount of the image alone.
    MakeErofs,
    /// Make a mount of the image with the directories that were opened.
    MakeComposefs(VerityRequirement),
    /// Attach the mount.
    Attach,
    /// Close this descriptor of the image.
    Close(i32),
    /// Return.
    Return(MountReturn),
}

impl View for MountAction {
    type V = MountActionView;

    open spec fn view(&self) -> MountActionView {
        match *self {
            MountAction::Open => MountActionView::Open,
            MountAction::Duplicate(fd) => MountActionView::Duplicate(fd),
            MountAction::Measure => MountActionView::Measure,
            MountAction::OpenDir(dir) => MountActionView::OpenDir(dir@),
            MountAction::DuplicateIdmap(fd) => MountActionView::DuplicateIdmap(fd),
            MountAction::MakeErofs => MountActionView::MakeErofs,
            MountAction::MakeComposefs(verity) => MountActionView::MakeComposefs(verity),
            MountAction::Attach => MountActionView::Attach,
            MountAction::Close(fd) => MountActionView::Close(fd),
            MountAction::Return(returned) => MountActionView::Return(returned),
        }
    }
}

/// The action that a state asks for.
pub open spec fn action_of(plan: MountPlan, state: MountState) -> MountActionView {
    match state.stage {
        MountStage::Open => MountActionView::Open,
        MountStage::Duplicate => MountActionView::Duplicate(state.fd),
        MountStage::Measure => MountActionView::Measure,
        MountStage::OpenDir(i) => MountActionView::OpenDir(
            plan.call->Composefs_basedirs[i as int],
        ),
        MountStage::DuplicateIdmap => MountActionView::DuplicateIdmap(
            plan.call->Composefs_idmap_fd->0,
        ),
        MountStage::Make => match plan.call {
            MountCallView::Erofs => MountActionView::MakeErofs,
            MountCallView::Composefs { basedirs, verity, idmap_fd } => {
                MountActionView::MakeComposefs(verity)
            },
        },
        MountStage::Attach => MountActionView::Attach,
        MountStage::Close(_) => MountActionView::Close(state.fd),
        MountStage::Ended(returned) => MountActionView::Return(returned),
    }
}

/// Whether a stage belongs to a plan: what it works on is there.
pub open spec fn belongs(plan: MountPlan, stage: MountStage) -> bool {
    match stage {
        MountStage::Measure => plan.expected is Some,
        MountStage::OpenDir(i) => i < dir_count(plan.call),
        MountStage::DuplicateIdmap => stage_after_dirs(plan.call) is DuplicateIdmap,
        _ => true,
    }
}

/// A mount that is under way. Its caller carries out one action after the other and
/// tells what came of each.
#[derive(Debug)]
pub struct MountRun {
    by_path: bool,
    expected: Option<Vec<u8>>,
    call: MountCall,
    state: MountState,
}

impl MountRun {
    #[verifier::type_invariant]
    closed spec fn wf(&self) -> bool {
        belongs(self.plan(), self.state.stage)
    }

    /// What is to be mounted.
    pub closed spec fn plan(self) -> MountPlan {
        MountPlan {
            by_path: self.by_path,
            expected: match self.expected {
                Some(digest) => Some(digest@),
                None => None,
            },
            call: self.call@,
        }
    }

    /// Where the mount stands.
    pub closed spec fn state(self) -> MountState {
        self.state
    }

    fn dir_count(&self) -> (count: usize)
        ensures
            count == dir_count(self.plan().call),
    {
        match &self.call {
            MountCall::Erofs => 0,
            MountCall::Composefs { basedirs, verity: _, idmap_fd: _ } => {
                assert(basedirs@.map_values(|dir: Vec<u8>| dir@).len() == basedirs@.len());
                basedirs.len()
            },
        }
    }

    fn stage_with_dirs(&self, opened: usize) -> (stage: MountStage)
        ensures
            stage == stage_with_dirs(self.plan().call, opened as nat),
    {
        if opened < self.dir_count() {
            return MountStage::OpenDir(opened);
        }
        match &self.call {
            MountCall::Composefs { basedirs: _, verity: _, idmap_fd: Some(_) } => {
                MountStage::DuplicateIdmap
            },
            _ => MountStage::Make,
        }
    }

    fn end(&self, returned: MountReturn) -> (stage: MountStage)
        ensures
            stage == end(self.plan(), self.state().fd, returned).stage,
    {
        if self.by_path {
            MountStage::Close(returned)
        } else {
            MountStage::Ended(returned)
        }
    }

    /// What to do next.
    pub fn action(&self) -> (action: MountAction)
        ensures
            action@ == action_of(self.plan(), self.state()),
    {
        proof {
            use_type_invariant(self);
        }
        match self.state.stage {
            MountStage::Open => MountAction::Open,
            MountStage::Duplicate => MountAction::Duplicate(self.state.fd),
            MountStage::Measure => MountAction::Measure,
            MountStage::OpenDir(i) => match &self.call {
                MountCall::Composefs { basedirs, verity: _, idmap_fd: _ } => {
                    assert(basedirs@.map_values(|dir: Vec<u8>| dir@).len() == basedirs@.len());
                    let dir: Vec<u8> = basedirs[i].clone();
                    assert(dir@ =~= basedirs@[i as int]@);
                    MountAction::OpenDir(dir)
                },
                MountCall::Erofs => MountAction::MakeErofs,
            },
            MountStage::DuplicateIdmap => match &self.call {
                MountCall::Composefs { basedirs: _, verity: _, idmap_fd: Some(fd) } => {
                    MountAction::DuplicateIdmap(*fd)
                },
                _ => MountAction::MakeErofs,
            },
            MountStage::Make => match &self.call {
                MountCall::Erofs => MountAction::MakeErofs,
                MountCall::Composefs { basedirs: _, verity, idmap_fd: _ } => {
                    MountAction::MakeComposefs(*verity)
                },
            },
            MountStage::Attach => MountAction::Attach,
            MountStage::Close(_) => MountAction::Close(self.state.fd),
            MountStage::Ended(returned) => MountAction::Return(returned),
        }
    }

    /// Goes on after what came of the action.
    pub fn reply(&mut self, reply: MountReply, errnos: &ErrnoTable)
        ensures
            final(self).plan() == old(self).plan(),
            final(self).state() == after(old(self).plan(), old(self).state(), reply, *errnos),
    {
        proof {
            use_type_invariant(&*self);
        }
        let mut fd: i32 = self.state.fd;
        let stage: MountStage = match (self.state.stage, reply) {
            (MountStage::Open, MountReply::Opened(opened)) if opened >= 0 => {
                fd = opened;
                MountStage::Duplicate
            },
            (MountStage::Open, reply) => MountStage::Ended(failure(reply, errnos)),
            (MountStage::Duplicate, MountReply::Done) => if self.expected.is_some() {
                MountStage::Measure
            } else {
                self.stage_with_dirs(0)
            },
            (MountStage::Measure, MountReply::Measured(measured)) => match &self.expected {
                Some(expected) => match verify_image_digest(
                    measured,
                    expected.as_slice(),
                    errnos,
                ) {
                    Ok(_) => self.stage_with_dirs(0),
                    Err(errno) => self.end(MountReturn { code: MOUNT_FAILED, errno: Some(errno) }),
                },
                None => self.end(MountReturn { code: MOUNT_FAILED, errno: Some(errnos.einval) }),
            },
            (MountStage::OpenDir(i), MountReply::Done) => {
                let count: usize = self.dir_count();
                assert(i < count);
                self.stage_with_dirs(i + 1)
            },
            (MountStage::DuplicateIdmap, MountReply::Done) => MountStage::Make,
            (MountStage::Make, MountReply::Done) => MountStage::Attach,
            (MountStage::Attach, MountReply::Done) => self.end(
                MountReturn { code: 0, errno: None },
            ),
            (MountStage::Close(returned), _) => MountStage::Ended(returned),
            (MountStage::Ended(returned), _) => MountStage::Ended(returned),
            (_, reply) => {
                let returned = failure(reply, errnos);
                self.end(returned)
            },
        };
        self.state = MountState { fd, stage };
    }
}

/// Whether a request to mount the image at a path passes its checks.
pub open spec fn accepts_path(
    has_path: bool,
    has_mountpoint: bool,
    options: Option<&LcfsMountOptions>,
) -> bool {
    has_path && has_mountpoint && expected_digest(options) is Ok
}

/// Whether a request to mount an open image passes its checks.
pub open spec fn accepts_fd(
    fd: i32,
    has_mountpoint: bool,
    options: Option<&LcfsMountOptions>,
) -> bool {
    fd >= 0 && has_mountpoint && expected_digest(options) is Ok
}

/// What options ask to be mounted.
pub open spec fn plan_of(by_path: bool, options: Option<&LcfsMountOptions>) -> MountPlan {
    MountPlan {
        by_path,
        expected: expected_digest(options)->Ok_0,
        call: requested_call(options),
    }
}

/// Whether a mount returns before anything is touched, with the number of an invalid
/// argument.
pub open spec fn is_refused(run: MountRun, errnos: ErrnoTable) -> bool {
    run.state().stage == MountStage::Ended(failed_with(errnos.einval))
}

fn refused(by_path: bool, errno: i32) -> (run: MountRun)
    ensures
        run.state().stage == MountStage::Ended(failed_with(errno)),
{
    let returned = MountReturn { code: MOUNT_FAILED, errno: Some(errno) };
    MountRun {
        by_path,
        expected: None,
        call: MountCall::Erofs,
        state: MountState { fd: NO_FD, stage: MountStage::Ended(returned) },
    }
}

/// Whether this is how the mount of the image at a path starts.
pub open spec fn starts_at_path(
    has_path: bool,
    has_mountpoint: bool,
    options: Option<&LcfsMountOptions>,
    errnos: ErrnoTable,
    run: MountRun,
) -> bool {
    if accepts_path(has_path, has_mountpoint, options) {
        &&& run.plan() == plan_of(true, options)
        &&& run.state() == (MountState { fd: NO_FD, stage: MountStage::Open })
    } else {
        is_refused(run, errnos)
    }
}

/// Whether this is how the mount of an open image starts.
pub open spec fn starts_with_fd(
    fd: i32,
    has_mountpoint: bool,
    options: Option<&LcfsMountOptions>,
    errnos: ErrnoTable,
    run: MountRun,
) -> bool {
    if accepts_fd(fd, has_mountpoint, options) {
        &&& run.plan() == plan_of(false, options)
        &&& run.state() == (MountState { fd, stage: MountStage::Duplicate })
    } else {
        is_refused(run, errnos)
    }
}

/// Starts to mount the image at a path. Either name may be missing, and bad options
/// are rejected before the image is touched.
pub fn lcfs_mount_image(
    has_path: bool,
    has_mountpoint: bool,
    options: Option<&LcfsMountOptions>,
    errnos: &ErrnoTable,
) -> (run: MountRun)
    ensures
        starts_at_path(has_path, has_mountpoint, options, *errnos, run),
{
    if !has_path || !has_mountpoint {
        return refused(true, errnos.einval);
    }
    match validate_options(options, errnos) {
        Ok(expected) => MountRun {
            by_path: true,
            expected,
            call: mount_call(options),
            state: MountState { fd: NO_FD, stage: MountStage::Open },
        },
        Err(errno) => refused(true, errno),
    }
}

/// Starts to mount an open image.
pub fn lcfs_mount_fd(
    fd: i32,
    has_mountpoint: bool,
    options: Option<&LcfsMountOptions>,
    errnos: &ErrnoTable,
) -> (run: MountRun)
    ensures
        starts_with_fd(fd, has_mountpoint, options, *errnos, run),
{
    if fd < 0 || !has_mountpoint {
        return refused(false, errnos.einval);
    }
    match validate_options(options, errnos) {
        Ok(expected) => MountRun {
            by_path: false,
            expected,
            call: mount_call(options),
            state: MountState { fd, stage: MountStage::Duplicate },
        },
        Err(errno) => refused(false, errno),
    }
}

/// The hexadecimal digit of a value below sixteen, in lowercase.
pub open spec fn hex_char(value: nat) -> u8 {
    if value < 10 {
        (48 + value) as u8
    } else {
        (87 + value) as u8
    }
}

/// The bytes of a digest in lowercase hexadecimal.
pub open spec fn hex_text(digest: Seq<u8>) -> Seq<u8> {
    Seq::new(
        2 * digest.len(),
        |i: int|
            if i % 2 == 0 {
                hex_char((digest[i / 2] / 16) as nat)
            } else {
                hex_char((digest[i / 2] % 16) as nat)
            },
    )
}

/// Every digest of accepted length can be expected: its hexadecimal text parses to
/// the digest.
pub proof fn law_hex_text_parses_back(digest: Seq<u8>)
    requires
        digest.len() <= MAX_DIGEST_SIZE,
    ensures
        hex_digest(hex_text(digest)) == Some(digest),
{
    let hex = hex_text(digest);
    assert forall|i: int| 0 <= i < hex.len() implies hex_value(#[trigger] hex[i]) is Some by {}
    assert(is_hex_digest(hex));
    assert forall|i: int| 0 <= i < digest.len() implies hex_bytes(hex)[i] == digest[i] by {
        assert(hex[2 * i] == hex_char((digest[i] / 16) as nat));
        assert(hex[2 * i + 1] == hex_char((digest[i] % 16) as nat));
    }
    assert(hex_bytes(hex) =~= digest);
}

/// The case of the digits does not matter: texts whose digits have the same values
/// parse to the same digest.
pub proof fn law_hex_case_is_ignored(a: Seq<u8>, b: Seq<u8>)
    requires
        a.len() == b.len(),
        forall|i: int| 0 <= i < a.len() ==> hex_value(#[trigger] a[i]) == hex_value(b[i]),
    ensures
        hex_digest(a) == hex_digest(b),
{
    if is_hex_digest(a) {
        assert forall|i: int| 0 <= i < b.len() implies hex_value(#[trigger] b[i]) is Some by {
            assert(hex_value(a[i]) is Some);
        }
        assert forall|i: int| 0 <= i < a.len() / 2 implies hex_bytes(a)[i] == hex_bytes(b)[i] by {
            assert(hex_value(a[2 * i]) == hex_value(b[2 * i]));
            assert(hex_value(a[2 * i + 1]) == hex_value(b[2 * i + 1]));
        }
        assert(hex_bytes(a) =~= hex_bytes(b));
    } else if is_hex_digest(b) {
        assert forall|i: int| 0 <= i < a.len() implies hex_value(#[trigger] a[i]) is Some by {
            assert(hex_value(b[i]) is Some);
        }
    }
}

/// An empty text is an empty digest, and no image has that.
pub proof fn law_empty_digest_never_matches(
    measured: Result<[u8; 32], MeasureVerityError>,
    errnos: ErrnoTable,
)
    ensures
        hex_digest(seq![]) == Some(Seq::<u8>::empty()),
        digest_verdict(measured, seq![], errnos) is Err,
{
    assert(hex_bytes(seq![]) =~= Seq::<u8>::empty());
    if let Ok(found) = measured {
        assert(found@.len() == 32);
    }
}

/// Only the expected image passes: the verdict is good exactly when a digest was
/// measured and is the expected one.
pub proof fn law_only_the_expected_image_passes(
    measured: Result<[u8; 32], MeasureVerityError>,
    expected: Seq<u8>,
    errnos: ErrnoTable,
)
    ensures
        digest_verdict(measured, expected, errnos) is Ok <==> (measured matches Ok(found) && found@
            == expected),
{
}

/// Callers can tell a wrong image from one without a digest: on every host the two
/// are reported by different numbers, and neither is that of bad options.
pub proof fn law_verdicts_can_be_told_apart(
    found: [u8; 32],
    expected: Seq<u8>,
    errnos: ErrnoTable,
)
    requires
        errnos.distinct(),
        found@ != expected,
    ensures
        digest_verdict(Ok(found), expected, errnos) != digest_verdict(
            Err(MeasureVerityError::VerityMissing),
            expected,
            errnos,
        ),
        digest_verdict(Ok(found), expected, errnos) != Err::<(), i32>(errnos.einval),
        digest_verdict(Err(MeasureVerityError::VerityMissing), expected, errnos) != Err::<(), i32>(
            errnos.einval,
        ),
{
    let all = seq![
        errnos.einval,
        errnos.eio,
        errnos.eilseq,
        errnos.enotty,
        errnos.enodata,
        errnos.eopnotsupp,
    ];
    assert(all[0] != all[2] && all[0] != all[3] && all[2] != all[3]);
}

/// An image is never opened for options that are rejected afterwards: what passes
/// the checks on a path passes those on the open image.
pub proof fn law_options_are_rejected_before_opening(
    has_path: bool,
    has_mountpoint: bool,
    options: Option<&LcfsMountOptions>,
    fd: i32,
)
    requires
        accepts_path(has_path, has_mountpoint, options),
        fd >= 0,
    ensures
        accepts_fd(fd, has_mountpoint, options),
{
}

/// Whether a mount can start in this state: with an image to open, with an open image,
/// or refused.
pub open spec fn is_start(state: MountState) -> bool {
    match state.stage {
        MountStage::Open => true,
        MountStage::Duplicate => true,
        MountStage::Ended(returned) => returned.code == MOUNT_FAILED,
        _ => false,
    }
}

/// The state that a mount has reached after these replies.
pub open spec fn reached(
    plan: MountPlan,
    start: MountState,
    replies: Seq<MountReply>,
    errnos: ErrnoTable,
) -> MountState
    decreases replies.len(),
{
    if replies.len() == 0 {
        start
    } else {
        after(plan, reached(plan, start, replies.drop_last(), errnos), replies.last(), errnos)
    }
}

/// Whether the file system has been attached by now.
pub open spec fn attached(
    plan: MountPlan,
    start: MountState,
    replies: Seq<MountReply>,
    errnos: ErrnoTable,
) -> bool
    decreases replies.len(),
{
    replies.len() > 0 && {
        ||| attached(plan, start, replies.drop_last(), errnos)
        ||| reached(plan, start, replies.drop_last(), errnos).stage is Attach
            && replies.last() is Done
    }
}

/// Whether the digest of the image has been measured by now and is this one.
pub open spec fn found_digest(
    plan: MountPlan,
    start: MountState,
    replies: Seq<MountReply>,
    errnos: ErrnoTable,
    digest: Seq<u8>,
) -> bool
    decreases replies.len(),
{
    replies.len() > 0 && {
        ||| found_digest(plan, start, replies.drop_last(), errnos, digest)
        ||| reached(plan, start, replies.drop_last(), errnos).stage is Measure && (
        replies.last() matches MountReply::Measured(Ok(found)) && found@ == digest)
    }
}

/// The descriptor of the image that has been opened and not been closed by now, if
/// any.
pub open spec fn left_open(
    plan: MountPlan,
    start: MountState,
    replies: Seq<MountReply>,
    errnos: ErrnoTable,
) -> Option<i32>
    decreases replies.len(),
{
    if replies.len() == 0 {
        None
    } else {
        match reached(plan, start, replies.drop_last(), errnos).stage {
            MountStage::Open => match replies.last() {
                MountReply::Opened(fd) if fd >= 0 => Some(fd),
                _ => None,
            },
            MountStage::Close(_) => None,
            _ => left_open(plan, start, replies.drop_last(), errnos),
        }
    }
}

/// What a mount returns, once that is known.
pub open spec fn returned(state: MountState) -> Option<MountReturn> {
    match state.stage {
        MountStage::Close(returned) => Some(returned),
        MountStage::Ended(returned) => Some(returned),
        _ => None,
    }
}

/// A mount returns zero exactly when the file system was attached; else it returns
/// minus one, and nothing was attached. While it is under way nothing is attached.
pub proof fn law_zero_means_attached(
    plan: MountPlan,
    start: MountState,
    replies: Seq<MountReply>,
    errnos: ErrnoTable,
)
    requires
        is_start(start),
    ensures
        match returned(reached(plan, start, replies, errnos)) {
            Some(r) => if attached(plan, start, replies, errnos) {
                r.code == 0 && r.errno is None
            } else {
                r.code == -1
            },
            None => !attached(plan, start, replies, errnos),
        },
    decreases replies.len(),
{
    if replies.len() > 0 {
        law_zero_means_attached(plan, start, replies.drop_last(), errnos);
    }
}

/// A call that fails ends the mount with its error number; one that has set the number
/// itself ends it with that number left as it is.
pub proof fn law_failed_call_is_returned(
    plan: MountPlan,
    state: MountState,
    errno: i32,
    errnos: ErrnoTable,
)
    requires
        returned(state) is None,
    ensures
        MOUNT_FAILED == -1,
        returned(after(plan, state, MountReply::Errno(errno), errnos)) == Some(
            MountReturn { code: MOUNT_FAILED, errno: Some(errno) },
        ),
        returned(after(plan, state, MountReply::Reported, errnos)) == Some(
            MountReturn { code: MOUNT_FAILED, errno: None },
        ),
        returned(after(plan, state, MountReply::NoErrno, errnos)) == Some(
            MountReturn { code: MOUNT_FAILED, errno: Some(errnos.einval) },
        ),
{
}

/// Only the expected image is mounted: where a digest is expected, no directory is
/// opened and no mount is made or attached before the image was found to have it.
pub proof fn law_only_the_expected_image_is_mounted(
    plan: MountPlan,
    start: MountState,
    replies: Seq<MountReply>,
    errnos: ErrnoTable,
)
    requires
        is_start(start),
        plan.expected is Some,
        match reached(plan, start, replies, errnos).stage {
            MountStage::OpenDir(_) => true,
            MountStage::DuplicateIdmap => true,
            MountStage::Make => true,
            MountStage::Attach => true,
            _ => attached(plan, start, replies, errnos),
        },
    ensures
        found_digest(plan, start, replies, errnos, plan.expected->0),
    decreases replies.len(),
{
    if replies.len() > 0 {
        let before = replies.drop_last();
        law_zero_means_attached(plan, start, before, errnos);
        let stage = reached(plan, start, before, errnos).stage;
        if stage is OpenDir || stage is DuplicateIdmap || stage is Make || stage is Attach
            || attached(plan, start, before, errnos) {
            law_only_the_expected_image_is_mounted(plan, start, before, errnos);
        }
    }
}

/// No descriptor leaks: an image that was opened is open as long as the mount is under
/// way, under the descriptor that is worked with and closed, and by the end it is
/// closed, whether or not the mount worked.
pub proof fn law_opened_image_is_closed(
    plan: MountPlan,
    replies: Seq<MountReply>,
    errnos: ErrnoTable,
)
    requires
        plan.by_path,
    ensures
        ({
            let start = MountState { fd: NO_FD, stage: MountStage::Open };
            let state = reached(plan, start, replies, errnos);
            left_open(plan, start, replies, errnos) == match state.stage {
                MountStage::Open => None,
                MountStage::Ended(_) => None,
                _ => Some(state.fd),
            }
        }),
    decreases replies.len(),
{
    if replies.len() > 0 {
        law_opened_image_is_closed(plan, replies.drop_last(), errnos);
    }
}

/// The descriptors of the caller stay open and theirs: on an image that was open
/// already nothing is opened in its place and nothing is closed.
pub proof fn law_open_image_stays_open(
    plan: MountPlan,
    fd: i32,
    replies: Seq<MountReply>,
    errnos: ErrnoTable,
)
    requires
        !plan.by_path,
    ensures
        ({
            let start = MountState { fd, stage: MountStage::Duplicate };
            let state = reached(plan, start, replies, errnos);
            &&& state.fd == fd
            &&& !(state.stage is Open)
            &&& !(state.stage is Close)
            &&& left_open(plan, start, replies, errnos) is None
        }),
    decreases replies.len(),
{
    if replies.len() > 0 {
        law_open_image_stays_open(plan, fd, replies.drop_last(), errnos);
    }
}

/// Once the image at a path is open, its mount goes on and returns as that of the open
/// image does; only the image is closed before the end.
pub proof fn law_path_mount_is_that_of_the_open_image(
    options: Option<&LcfsMountOptions>,
    fd: i32,
    replies: Seq<MountReply>,
    errnos: ErrnoTable,
)
    requires
        fd >= 0,
    ensures
        ({
            let opened = MountState { fd, stage: MountStage::Duplicate };
            let unopened = MountState { fd: NO_FD, stage: MountStage::Open };
            let path = reached(plan_of(true, options), opened, replies, errnos);
            let open = reached(plan_of(false, options), opened, replies, errnos);
            &&& after(plan_of(true, options), unopened, MountReply::Opened(fd), errnos) == opened
            &&& returned(path) == returned(open)
            &&& returned(open) is None ==> path == open
        }),
    decreases replies.len(),
{
    if replies.len() > 0 {
        law_path_mount_is_that_of_the_open_image(options, fd, replies.drop_last(), errnos);
    }
}

/// How many replies a mount takes at most from a stage on.
pub open spec fn replies_left(plan: MountPlan, stage: MountStage) -> int {
    let dirs = dir_count(plan.call) as int;
    match stage {
        MountStage::Open => 7 + dirs,
        MountStage::Duplicate => 6 + dirs,
        MountStage::Measure => 5 + dirs,
        MountStage::OpenDir(i) => 4 + dirs - i,
        MountStage::DuplicateIdmap => 4,
        MountStage::Make => 3,
        MountStage::Attach => 2,
        MountStage::Close(_) => 1,
        MountStage::Ended(_) => 0,
    }
}

/// Every mount ends, after a number of replies that its directories bound.
pub proof fn law_mount_ends(
    plan: MountPlan,
    start: MountState,
    replies: Seq<MountReply>,
    errnos: ErrnoTable,
)
    requires
        is_start(start),
        dir_count(plan.call) <= usize::MAX,
    ensures
        belongs(plan, reached(plan, start, replies, errnos).stage),
        replies.len() >= 7 + dir_count(plan.call) ==> reached(
            plan,
            start,
            replies,
            errnos,
        ).stage is Ended,
{
    lemma_replies_run_out(plan, start, replies, errnos);
}

proof fn lemma_replies_run_out(
    plan: MountPlan,
    start: MountState,
    replies: Seq<MountReply>,
    errnos: ErrnoTable,
)
    requires
        is_start(start),
        dir_count(plan.call) <= usize::MAX,
    ensures
        ({
            let stage = reached(plan, start, replies, errnos).stage;
            &&& belongs(plan, stage)
            &&& stage is Ended || replies_left(plan, stage) + replies.len() <= 7 + dir_count(
                plan.call,
            )
            &&& !(stage is Ended) ==> replies_left(plan, stage) > 0
        }),
    decreases replies.len(),
{
    if replies.len() > 0 {
        lemma_replies_run_out(plan, start, replies.drop_last(), errnos);
    }
}

/// An identifier mapping that is asked for is made, with a file descriptor that is
/// not negative.
pub proof fn law_idmap_is_kept(options: &LcfsMountOptions)
    requires
        expected_digest(Some(options)) is Ok,
        has_flag(options.flags, LCFS_MOUNT_FLAGS_IDMAP),
    ensures
        options.idmap_fd >= 0,
        requested_call(Some(options)) matches MountCallView::Composefs { basedirs, verity, idmap_fd }
            ==> idmap_fd == Some(options.idmap_fd),
{
}

/// Backing files are mounted exactly when some directory for them is given.
pub proof fn law_no_directory_mounts_the_image_alone(dirs: Seq<Option<Vec<u8>>>)
    ensures
        given_dirs(dirs).len() == 0 <==> forall|i: int|
            0 <= i < dirs.len() ==> #[trigger] dirs[i] is None,
    decreases dirs.len(),
{
    if dirs.len() > 0 {
        let before = dirs.drop_last();
        law_no_directory_mounts_the_image_alone(before);
        if given_dirs(dirs).len() == 0 {
            assert forall|i: int| 0 <= i < dirs.len() implies #[trigger] dirs[i] is None by {
                if i < dirs.len() - 1 {
                    assert(before[i] == dirs[i]);
                }
            }
        }
        if forall|i: int| 0 <= i < dirs.len() ==> #[trigger] dirs[i] is None {
            assert forall|i: int| 0 <= i < before.len() implies #[trigger] before[i] is None by {
                assert(before[i] == dirs[i]);
            }
            assert(dirs[dirs.len() - 1] is None);
        }
    }
}

/// Which options are rejected: those with a flag that is not known, with an upper
/// directory but no work directory or the reverse, with an identifier mapping but no
/// descriptor for it, or with an expected digest that is not the hexadecimal text of at
/// most 64 bytes. All others are accepted, and so are missing options.
pub proof fn law_which_options_are_rejected(options: &LcfsMountOptions)
    ensures
        expected_digest(None) == Ok::<Option<Seq<u8>>, ()>(None),
        expected_digest(Some(options)) is Err <==> {
            ||| options.flags >= 32
            ||| options.upperdir is Some && options.workdir is None
            ||| options.upperdir is None && options.workdir is Some
            ||| (options.flags / 8) % 2 == 1 && options.idmap_fd < 0
            ||| (options.expected_fsverity_digest matches Some(hex) && hex_digest(hex@) is None)
        },
{
    lemma_flags(options.flags);
}

/// The digest that options name is the one that is expected, whatever flags and
/// directories they have: where they are accepted, a digest is expected exactly when
/// they have a text for it, and it is the one whose hexadecimal text that is.
pub proof fn law_named_digest_is_expected(options: &LcfsMountOptions, digest: Seq<u8>)
    requires
        expected_digest(Some(options)) is Ok,
    ensures
        options.expected_fsverity_digest is None <==> expected_digest(Some(options))->Ok_0 is None,
        options.expected_fsverity_digest matches Some(hex) ==> hex@ == hex_text(digest)
            && digest.len() <= 64 ==> expected_digest(Some(options))->Ok_0 == Some(digest),
        options.expected_fsverity_digest matches Some(hex) ==> expected_digest(
            Some(options),
        )->Ok_0 == hex_digest(hex@),
        plan_of(true, Some(options)).expected == expected_digest(Some(options))->Ok_0,
        plan_of(false, Some(options)).expected == expected_digest(Some(options))->Ok_0,
{
    if digest.len() <= 64 {
        law_hex_text_parses_back(digest);
    }
}

/// Options without an upper and a work directory, with known flags, without an
/// identifier mapping and with the hexadecimal text of a digest are accepted, and the
/// digest is expected.
pub proof fn law_digest_is_expected_with_every_flag(options: &LcfsMountOptions, digest: Seq<u8>)
    requires
        options.flags < 32,
        (options.upperdir is Some) == (options.workdir is Some),
        options.idmap_fd >= 0 || (options.flags / 8) % 2 == 0,
        digest.len() <= 64,
        options.expected_fsverity_digest matches Some(hex) && hex@ == hex_text(digest),
    ensures
        plan_of(true, Some(options)).expected == Some(digest),
        plan_of(false, Some(options)).expected == Some(digest),
        forall|fd: i32| fd >= 0 ==> #[trigger] accepts_fd(fd, true, Some(options)),
        accepts_path(true, true, Some(options)),
{
    law_hex_text_parses_back(digest);
    law_which_options_are_rejected(options);
    law_named_digest_is_expected(options, digest);
}

/// A mount that returns zero has mounted the image that its options name: where they
/// have the hexadecimal text of a digest, the image was measured and had that digest.
pub proof fn law_attached_image_has_the_named_digest(
    options: &LcfsMountOptions,
    digest: Seq<u8>,
    by_path: bool,
    start: MountState,
    replies: Seq<MountReply>,
    errnos: ErrnoTable,
)
    requires
        is_start(start),
        expected_digest(Some(options)) is Ok,
        digest.len() <= 64,
        options.expected_fsverity_digest matches Some(hex) && hex@ == hex_text(digest),
        reached(plan_of(by_path, Some(options)), start, replies, errnos).stage matches
            MountStage::Ended(r) && r.code == 0,
    ensures
        attached(plan_of(by_path, Some(options)), start, replies, errnos),
        exists|k: int|
            0 <= k < replies.len() && (#[trigger] replies[k] matches MountReply::Measured(Ok(found))
                && found@ == digest),
{
    let plan = plan_of(by_path, Some(options));
    law_named_digest_is_expected(options, digest);
    law_zero_means_attached(plan, start, replies, errnos);
    law_only_the_expected_image_is_mounted(plan, start, replies, errnos);
    lemma_found_digest_was_measured(plan, start, replies, errnos, digest);
}

proof fn lemma_found_digest_was_measured(
    plan: MountPlan,
    start: MountState,
    replies: Seq<MountReply>,
    errnos: ErrnoTable,
    digest: Seq<u8>,
)
    requires
        found_digest(plan, start, replies, errnos, digest),
    ensures
        exists|k: int|
            0 <= k < replies.len() && (#[trigger] replies[k] matches MountReply::Measured(Ok(found))
                && found@ == digest),
    decreases replies.len(),
{
    let before = replies.drop_last();
    if found_digest(plan, start, before, errnos, digest) {
        lemma_found_digest_was_measured(plan, start, before, errnos, digest);
        let k = choose|k: int|
            0 <= k < before.len() && (#[trigger] before[k] matches MountReply::Measured(Ok(found))
                && found@ == digest);
        assert(replies[k] == before[k]);
    } else {
        assert(replies[replies.len() - 1] == replies.last());
    }
}

/// Whether a text is the hexadecimal text of a digest, each letter in either case.
pub open spec fn is_text_of(hex: Seq<u8>, digest: Seq<u8>) -> bool {
    &&& hex.len() == 2 * digest.len()
    &&& forall|i: int|
        0 <= i < hex.len() ==> {
            ||| #[trigger] hex[i] == hex_text(digest)[i]
            ||| 'a' as int <= hex_text(digest)[i] <= 'f' as int && hex[i] == hex_text(digest)[i]
                - 32
        }
}

/// A text parses to a digest exactly if it is the hexadecimal text of that digest, in
/// whatever case, and the digest has at most 64 bytes.
pub proof fn law_exactly_the_text_of_a_digest_parses(hex: Seq<u8>, digest: Seq<u8>)
    ensures
        hex_digest(hex) == Some(digest) <==> digest.len() <= 64 && is_text_of(hex, digest),
{
    if hex_digest(hex) == Some(digest) {
        assert forall|i: int| 0 <= i < hex.len() implies #[trigger] hex[i] == hex_text(digest)[i]
            || 'a' as int <= hex_text(digest)[i] <= 'f' as int && hex[i] == hex_text(digest)[i]
            - 32 by {
            let pair = i / 2;
            assert(hex_value(hex[2 * pair]) is Some);
            assert(hex_value(hex[2 * pair + 1]) is Some);
            let high = hex_value(hex[2 * pair])->0;
            let low = hex_value(hex[2 * pair + 1])->0;
            assert(digest[pair] == 16 * high + low);
            assert(digest[pair] / 16 == high);
            assert(digest[pair] % 16 == low);
            assert(i == 2 * pair || i == 2 * pair + 1);
        }
    }
    if digest.len() <= 64 && is_text_of(hex, digest) {
        let lower = hex_text(digest);
        assert forall|i: int| 0 <= i < hex.len() implies hex_value(#[trigger] hex[i]) == hex_value(
            lower[i],
        ) by {}
        law_hex_case_is_ignored(hex, lower);
        law_hex_text_parses_back(digest);
    }
}

/// The hexadecimal text of a digest gives the digits of each byte in two characters,
/// the higher one first.
pub proof fn law_hex_text_has_two_digits_for_each_byte(digest: Seq<u8>, i: int)
    requires
        0 <= i < digest.len(),
    ensures
        hex_text(digest).len() == 2 * digest.len(),
        ({
            let digits = "0123456789abcdef"@;
            &&& hex_text(digest)[2 * i] as int == digits[(digest[i] / 16) as int] as int
            &&& hex_text(digest)[2 * i + 1] as int == digits[(digest[i] % 16) as int] as int
        }),
{
    reveal_strlit("0123456789abcdef");
}

proof fn lemma_flags(flags: u32)
    ensures
        has_flag(flags, !LCFS_MOUNT_FLAGS_MASK) <==> flags >= 32,
        has_flag(flags, LCFS_MOUNT_FLAGS_REQUIRE_VERITY) <==> flags % 2 == 1,
        has_flag(flags, LCFS_MOUNT_FLAGS_IDMAP) <==> (flags / 8) % 2 == 1,
        has_flag(flags, LCFS_MOUNT_FLAGS_TRY_VERITY) <==> (flags / 16) % 2 == 1,
{
    assert(flags & !31u32 != 0 <==> flags >= 32) by (bit_vector);
    assert(flags & 1u32 != 0 <==> flags % 2 == 1) by (bit_vector);
    assert(flags & 8u32 != 0 <==> (flags / 8) % 2 == 1) by (bit_vector);
    assert(flags & 16u32 != 0 <==> (flags / 16) % 2 == 1) by (bit_vector);
}

/// What is measured decides, and how: another digest is reported as `EILSEQ`, as is one
/// that cannot be compared, and a missing one as `ENOTTY`; any other failure keeps its
/// number, and one without a number is `EIO`.
pub proof fn law_how_digests_are_judged(
    found: [u8; 32],
    expected: Seq<u8>,
    errno: i32,
    errnos: ErrnoTable,
)
    ensures
        digest_verdict(Ok(found), found@, errnos) == Ok::<(), i32>(()),
        found@ != expected ==> digest_verdict(Ok(found), expected, errnos) == Err::<(), i32>(
            errnos.eilseq,
        ),
        digest_verdict(Err(MeasureVerityError::InvalidDigestAlgorithm), expected, errnos) == Err::<
            (),
            i32,
        >(errnos.eilseq),
        digest_verdict(Err(MeasureVerityError::InvalidDigestSize), expected, errnos) == Err::<
            (),
            i32,
        >(errnos.eilseq),
        digest_verdict(Err(MeasureVerityError::VerityMissing), expected, errnos) == Err::<(), i32>(
            errnos.enotty,
        ),
        digest_verdict(Err(MeasureVerityError::FilesystemNotSupported), expected, errnos) == Err::<
            (),
            i32,
        >(errnos.enotty),
        digest_verdict(Err(MeasureVerityError::Io(None)), expected, errnos) == Err::<(), i32>(
            errnos.eio,
        ),
        digest_verdict(Err(MeasureVerityError::Io(Some(errno))), expected, errnos) == Err::<
            (),
            i32,
        >(
            if errno == errnos.enodata || errno == errnos.eopnotsupp {
                errnos.enotty
            } else {
                errno
            },
        ),
{
}

/// The directories that are given keep their order, and those left out are skipped:
/// joining two lists joins what they give, and a list of one gives it or nothing.
pub proof fn law_given_directories_keep_their_order(
    a: Seq<Option<Vec<u8>>>,
    b: Seq<Option<Vec<u8>>>,
    dir: Vec<u8>,
)
    ensures
        given_dirs(seq![]) == Seq::<Seq<u8>>::empty(),
        given_dirs(seq![None]) == Seq::<Seq<u8>>::empty(),
        given_dirs(seq![Some(dir)]) == seq![dir@],
        given_dirs(a + b) == given_dirs(a) + given_dirs(b),
    decreases b.len(),
{
    reveal_with_fuel(given_dirs, 2);
    assert(seq![None::<Vec<u8>>].drop_last() =~= seq![]);
    assert(seq![Some(dir)].drop_last() =~= seq![]);
    assert(given_dirs(seq![Some(dir)]) =~= seq![dir@]);
    if b.len() == 0 {
        assert(a + b =~= a);
        assert(given_dirs(a) + given_dirs(b) =~= given_dirs(a));
    } else {
        law_given_directories_keep_their_order(a, b.drop_last(), dir);
        assert((a + b).drop_last() =~= a + b.drop_last());
        assert((a + b).last() == b.last());
        assert(given_dirs(a + b) =~= given_dirs(a) + given_dirs(b));
    }
}

/// What is mounted follows from the options alone, however it is started: the image
/// alone without directories; else with all of them in their order, with fs-verity
/// required where the lowest flag is set, else tried where the fifth is, and with the
/// identifier mapping of the options where the fourth is.
pub proof fn law_options_say_what_is_mounted(options: &LcfsMountOptions, by_path: bool)
    requires
        expected_digest(Some(options)) is Ok,
    ensures
        plan_of(by_path, Some(options)).by_path == by_path,
        plan_of(by_path, None).call is Erofs,
        plan_of(by_path, None).expected is None,
        plan_of(by_path, Some(options)).call is Erofs <==> forall|i: int|
            0 <= i < options.objdirs@.len() ==> #[trigger] options.objdirs@[i] is None,
        plan_of(by_path, Some(options)).call matches MountCallView::Composefs {
            basedirs,
            verity,
            idmap_fd,
        } ==> {
            &&& basedirs == given_dirs(options.objdirs@)
            &&& basedirs.len() > 0
            &&& verity is Required <==> options.flags % 2 == 1
            &&& verity is Try <==> options.flags % 2 == 0 && (options.flags / 16) % 2 == 1
            &&& idmap_fd is Some <==> (options.flags / 8) % 2 == 1
            &&& idmap_fd is Some ==> idmap_fd->0 == options.idmap_fd
        },
{
    lemma_flags(options.flags);
    law_no_directory_mounts_the_image_alone(options.objdirs@);
}

/// What each state asks for: the image is opened, its descriptor duplicated, measured
/// and closed; each directory is the one with its index; the mount is made as the plan
/// says.
pub proof fn law_actions_follow_the_plan(plan: MountPlan, fd: i32, i: usize, r: MountReturn)
    ensures
        action_of(plan, MountState { fd, stage: MountStage::Open }) is Open,
        action_of(plan, MountState { fd, stage: MountStage::Duplicate })
            == MountActionView::Duplicate(fd),
        action_of(plan, MountState { fd, stage: MountStage::Measure }) is Measure,
        action_of(plan, MountState { fd, stage: MountStage::Attach }) is Attach,
        action_of(plan, MountState { fd, stage: MountStage::Close(r) }) == MountActionView::Close(
            fd,
        ),
        action_of(plan, MountState { fd, stage: MountStage::Ended(r) }) == MountActionView::Return(
            r,
        ),
        plan.call is Erofs ==> action_of(plan, MountState { fd, stage: MountStage::Make })
            is MakeErofs,
        plan.call matches MountCallView::Composefs { basedirs, verity, idmap_fd } ==> {
            &&& action_of(plan, MountState { fd, stage: MountStage::Make })
                == MountActionView::MakeComposefs(verity)
            &&& i < basedirs.len() ==> action_of(
                plan,
                MountState { fd, stage: MountStage::OpenDir(i) },
            ) == MountActionView::OpenDir(basedirs[i as int])
            &&& idmap_fd matches Some(idmap) ==> action_of(
                plan,
                MountState { fd, stage: MountStage::DuplicateIdmap },
            ) == MountActionView::DuplicateIdmap(idmap)
        },
{
}

/// The directories that have been opened by now, in the order in which they were.
pub open spec fn opened_dirs(
    plan: MountPlan,
    start: MountState,
    replies: Seq<MountReply>,
    errnos: ErrnoTable,
) -> Seq<Seq<u8>>
    decreases replies.len(),
{
    if replies.len() == 0 {
        seq![]
    } else {
        let before = opened_dirs(plan, start, replies.drop_last(), errnos);
        match action_of(plan, reached(plan, start, replies.drop_last(), errnos)) {
            MountActionView::OpenDir(dir) if replies.last() is Done => before.push(dir),
            _ => before,
        }
    }
}

/// How often an action of this sort has worked by now.
pub open spec fn times_done(
    plan: MountPlan,
    start: MountState,
    replies: Seq<MountReply>,
    errnos: ErrnoTable,
    counts: spec_fn(MountActionView) -> bool,
) -> nat
    decreases replies.len(),
{
    if replies.len() == 0 {
        0
    } else {
        let before = times_done(plan, start, replies.drop_last(), errnos, counts);
        if counts(action_of(plan, reached(plan, start, replies.drop_last(), errnos)))
            && replies.last() is Done {
            before + 1
        } else {
            before
        }
    }
}

/// A mount that is attached has done all that its plan asks for: the image's
/// descriptor was duplicated once, every directory was opened, in order, the
/// descriptor of an identifier mapping was duplicated once where there is one, and
/// one mount was made.
pub proof fn law_attached_mount_has_done_everything(
    plan: MountPlan,
    start: MountState,
    replies: Seq<MountReply>,
    errnos: ErrnoTable,
)
    requires
        is_start(start),
        dir_count(plan.call) <= usize::MAX,
        attached(plan, start, replies, errnos),
    ensures
        opened_dirs(plan, start, replies, errnos) == match plan.call {
            MountCallView::Erofs => Seq::<Seq<u8>>::empty(),
            MountCallView::Composefs { basedirs, verity, idmap_fd } => basedirs,
        },
        times_done(plan, start, replies, errnos, |a: MountActionView| a is Duplicate) == 1,
        times_done(plan, start, replies, errnos, |a: MountActionView| a is DuplicateIdmap) == (
        if plan.call matches MountCallView::Composefs { basedirs, verity, idmap_fd }
            && idmap_fd is Some {
            1nat
        } else {
            0
        }),
        times_done(
            plan,
            start,
            replies,
            errnos,
            |a: MountActionView| a is MakeErofs || a is MakeComposefs,
        ) == 1,
        times_done(plan, start, replies, errnos, |a: MountActionView| a is Attach) == 1,
{
    lemma_progress(plan, start, replies, errnos);
    law_zero_means_attached(plan, start, replies, errnos);
}

/// How many directories are open at a stage.
spec fn dirs_open(plan: MountPlan, stage: MountStage) -> nat {
    match stage {
        MountStage::Open => 0,
        MountStage::Duplicate => 0,
        MountStage::Measure => 0,
        MountStage::OpenDir(i) => i as nat,
        _ => dir_count(plan.call),
    }
}

spec fn dirs_of(call: MountCallView) -> Seq<Seq<u8>> {
    match call {
        MountCallView::Erofs => seq![],
        MountCallView::Composefs { basedirs, verity, idmap_fd } => basedirs,
    }
}

spec fn has_idmap(call: MountCallView) -> bool {
    call matches MountCallView::Composefs { basedirs, verity, idmap_fd } && idmap_fd is Some
}

proof fn lemma_progress(
    plan: MountPlan,
    start: MountState,
    replies: Seq<MountReply>,
    errnos: ErrnoTable,
)
    requires
        is_start(start),
        dir_count(plan.call) <= usize::MAX,
    ensures
        ({
            let stage = reached(plan, start, replies, errnos).stage;
            let under_way = returned(reached(plan, start, replies, errnos)) is None || attached(
                plan,
                start,
                replies,
                errnos,
            );
            let duplicated = times_done(
                plan,
                start,
                replies,
                errnos,
                |a: MountActionView| a is Duplicate,
            );
            let mapped = times_done(
                plan,
                start,
                replies,
                errnos,
                |a: MountActionView| a is DuplicateIdmap,
            );
            let made = times_done(
                plan,
                start,
                replies,
                errnos,
                |a: MountActionView| a is MakeErofs || a is MakeComposefs,
            );
            let attaches = times_done(
                plan,
                start,
                replies,
                errnos,
                |a: MountActionView| a is Attach,
            );
            &&& belongs(plan, stage)
            &&& under_way ==> {
                &&& opened_dirs(plan, start, replies, errnos) == dirs_of(plan.call).take(
                    dirs_open(plan, stage) as int,
                )
                &&& duplicated == if stage is Open || stage is Duplicate { 0nat } else { 1 }
                &&& mapped == if has_idmap(plan.call) && (stage is Make || stage is Attach
                    || stage is Close || stage is Ended) {
                    1nat
                } else {
                    0
                }
                &&& made == if stage is Attach || stage is Close || stage is Ended {
                    1nat
                } else {
                    0
                }
                &&& attaches == if stage is Close || stage is Ended { 1nat } else { 0 }
            }
        }),
    decreases replies.len(),
{
    assert(dirs_of(plan.call).take(0) =~= seq![]);
    assert(dirs_of(plan.call).take(dir_count(plan.call) as int) =~= dirs_of(plan.call));
    if replies.len() > 0 {
        let before = replies.drop_last();
        lemma_progress(plan, start, before, errnos);
        law_zero_means_attached(plan, start, before, errnos);
        law_zero_means_attached(plan, start, replies, errnos);
        let stage = reached(plan, start, before, errnos).stage;
        if let MountStage::OpenDir(i) = stage {
            let dirs = dirs_of(plan.call);
            assert(dirs.take(i + 1) =~= dirs.take(i as int).push(dirs[i as int]));
        }
    }
}

/// Which requests are refused, before anything is touched and as invalid arguments:
/// those without a path or a mount point, with a negative descriptor, or with bad
/// options. All others start with the image to open, or with the very descriptor that
/// was given.
pub proof fn law_which_requests_are_refused(
    has_path: bool,
    fd: i32,
    has_mountpoint: bool,
    options: Option<&LcfsMountOptions>,
    errnos: ErrnoTable,
    at_path: MountRun,
    with_fd: MountRun,
)
    requires
        starts_at_path(has_path, has_mountpoint, options, errnos, at_path),
        starts_with_fd(fd, has_mountpoint, options, errnos, with_fd),
    ensures
        ({
            let invalid = MountActionView::Return(
                MountReturn { code: MOUNT_FAILED, errno: Some(errnos.einval) },
            );
            let bad = !has_mountpoint || expected_digest(options) is Err;
            &&& action_of(at_path.plan(), at_path.state()) == if bad || !has_path {
                invalid
            } else {
                MountActionView::Open
            }
            &&& action_of(with_fd.plan(), with_fd.state()) == if bad || fd < 0 {
                invalid
            } else {
                MountActionView::Duplicate(fd)
            }
            &&& is_start(at_path.state())
            &&& is_start(with_fd.state())
            &&& !bad && has_path ==> at_path.plan().by_path
            &&& !bad && fd >= 0 ==> !with_fd.plan().by_path
        }),
{
}

/// Whether a reply says that the action of a state worked: the image was opened, its
/// digest is the expected one, or the call was done.
pub open spec fn is_good(plan: MountPlan, state: MountState, reply: MountReply) -> bool {
    match action_of(plan, state) {
        MountActionView::Open => reply matches MountReply::Opened(fd) && fd >= 0,
        MountActionView::Measure => reply matches MountReply::Measured(Ok(found))
            && plan.expected == Some(found@),
        _ => reply is Done,
    }
}

/// Whether every action so far worked.
pub open spec fn all_good(
    plan: MountPlan,
    start: MountState,
    replies: Seq<MountReply>,
    errnos: ErrnoTable,
) -> bool
    decreases replies.len(),
{
    replies.len() > 0 ==> {
        &&& all_good(plan, start, replies.drop_last(), errnos)
        &&& is_good(plan, reached(plan, start, replies.drop_last(), errnos), replies.last())
    }
}

/// A mount that is not refused fails only if one of its actions does: as long as all
/// work it goes on, and in the end it has attached the file system and returns zero. The
/// image is measured only where a digest is expected of it.
pub proof fn law_mount_fails_only_if_an_action_does(
    plan: MountPlan,
    start: MountState,
    replies: Seq<MountReply>,
    errnos: ErrnoTable,
)
    requires
        start.stage is Open || start.stage is Duplicate,
        dir_count(plan.call) <= usize::MAX,
        all_good(plan, start, replies, errnos),
    ensures
        returned(reached(plan, start, replies, errnos)) matches Some(r) ==> r.code == 0
            && r.errno is None,
        replies.len() >= 7 + dir_count(plan.call) ==> {
            &&& attached(plan, start, replies, errnos)
            &&& reached(plan, start, replies, errnos).stage is Ended
        },
        plan.expected is None ==> !(reached(plan, start, replies, errnos).stage is Measure),
    decreases replies.len(),
{
    law_mount_ends(plan, start, replies, errnos);
    law_zero_means_attached(plan, start, replies, errnos);
    if replies.len() > 0 {
        let before = replies.drop_last();
        law_mount_fails_only_if_an_action_does(plan, start, before, errnos);
        law_mount_ends(plan, start, before, errnos);
    }
}

} // verus!
