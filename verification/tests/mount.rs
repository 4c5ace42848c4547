use composefs_ops::errno::ErrnoTable;
use composefs_ops::mount::{
    io_error_to_errno, lcfs_mount_fd, lcfs_mount_image, parse_hex_digest, validate_options,
    verify_image_digest, LcfsMountOptions, MeasureVerityError, MountAction, MountReply,
    MountReturn, MountRun, VerityRequirement, LCFS_MOUNT_FLAGS_IDMAP, LCFS_MOUNT_FLAGS_MASK,
    LCFS_MOUNT_FLAGS_REQUIRE_VERITY, LCFS_MOUNT_FLAGS_TRY_VERITY,
};

fn options() -> LcfsMountOptions {
    LcfsMountOptions {
        objdirs: Vec::new(),
        workdir: None,
        upperdir: None,
        expected_fsverity_digest: None,
        flags: 0,
        idmap_fd: -1,
    }
}

fn hex_of(digest: &[u8]) -> Vec<u8> {
    digest.iter().map(|b| format!("{b:02x}")).collect::<String>().into_bytes()
}

#[test]
fn host_errnos_are_those_of_libc() {
    let table = ErrnoTable::host();
    assert_eq!(table.einval, libc::EINVAL);
    assert_eq!(table.eio, libc::EIO);
    assert_eq!(table.eilseq, libc::EILSEQ);
    assert_eq!(table.enotty, libc::ENOTTY);
    assert_eq!(table.enodata, libc::ENODATA);
    assert_eq!(table.eopnotsupp, libc::EOPNOTSUPP);
}

#[test]
fn hex_digests() {
    assert_eq!(parse_hex_digest(b""), Some(vec![]));
    assert_eq!(parse_hex_digest(b"00ff7f"), Some(vec![0x00, 0xff, 0x7f]));
    assert_eq!(parse_hex_digest(b"aBcDeF09"), Some(vec![0xab, 0xcd, 0xef, 0x09]));
    assert_eq!(parse_hex_digest(b"0"), None);
    assert_eq!(parse_hex_digest(b"+a"), None);
    assert_eq!(parse_hex_digest(b"0g"), None);
    assert_eq!(parse_hex_digest(b"0x12"), None);
    assert_eq!(parse_hex_digest(b" 1"), None);
    let longest = vec![b'a'; 128];
    assert_eq!(parse_hex_digest(&longest), Some(vec![0xaa; 64]));
    let too_long = vec![b'a'; 130];
    assert_eq!(parse_hex_digest(&too_long), None);
}

#[test]
fn hex_text_parses_back() {
    let digest: Vec<u8> = (0..64u8).map(|i| i.wrapping_mul(37)).collect();
    assert_eq!(parse_hex_digest(&hex_of(&digest)), Some(digest.clone()));
    let upper = hex_of(&digest).to_ascii_uppercase();
    assert_eq!(parse_hex_digest(&upper), Some(digest));
}

#[test]
fn options_are_validated() {
    let e = ErrnoTable::host();
    assert_eq!(validate_options(None, &e), Ok(None));
    assert_eq!(validate_options(Some(&options()), &e), Ok(None));

    let mut o = options();
    o.flags = LCFS_MOUNT_FLAGS_MASK + 1;
    assert_eq!(validate_options(Some(&o), &e), Err(libc::EINVAL));
    o.flags = 0x8000_0000;
    assert_eq!(validate_options(Some(&o), &e), Err(libc::EINVAL));
    o.flags = LCFS_MOUNT_FLAGS_MASK;
    o.idmap_fd = 0;
    assert_eq!(validate_options(Some(&o), &e), Ok(None));

    let mut o = options();
    o.upperdir = Some(b"/upper".to_vec());
    assert_eq!(validate_options(Some(&o), &e), Err(libc::EINVAL));
    o.workdir = Some(b"/work".to_vec());
    assert_eq!(validate_options(Some(&o), &e), Ok(None));
    o.upperdir = None;
    assert_eq!(validate_options(Some(&o), &e), Err(libc::EINVAL));

    let mut o = options();
    o.flags = LCFS_MOUNT_FLAGS_IDMAP;
    assert_eq!(validate_options(Some(&o), &e), Err(libc::EINVAL));
    o.idmap_fd = 3;
    assert_eq!(validate_options(Some(&o), &e), Ok(None));

    let mut o = options();
    o.expected_fsverity_digest = Some(b"0a0B".to_vec());
    assert_eq!(validate_options(Some(&o), &e), Ok(Some(vec![0x0a, 0x0b])));
    o.expected_fsverity_digest = Some(b"".to_vec());
    assert_eq!(validate_options(Some(&o), &e), Ok(Some(vec![])));
    o.expected_fsverity_digest = Some(b"xyz".to_vec());
    assert_eq!(validate_options(Some(&o), &e), Err(libc::EINVAL));
}

#[test]
fn digests_are_verified() {
    let e = ErrnoTable::host();
    let found = [7u8; 32];
    assert_eq!(verify_image_digest(Ok(found), &found, &e), Ok(()));
    assert_eq!(verify_image_digest(Ok(found), &[8u8; 32], &e), Err(libc::EILSEQ));
    assert_eq!(verify_image_digest(Ok(found), &[7u8; 31], &e), Err(libc::EILSEQ));
    // An empty digest never matches
    assert_eq!(verify_image_digest(Ok(found), &[], &e), Err(libc::EILSEQ));
    let cases = [
        (MeasureVerityError::VerityMissing, libc::ENOTTY),
        (MeasureVerityError::FilesystemNotSupported, libc::ENOTTY),
        (MeasureVerityError::InvalidDigestAlgorithm, libc::EILSEQ),
        (MeasureVerityError::InvalidDigestSize, libc::EILSEQ),
        (MeasureVerityError::Io(Some(libc::ENODATA)), libc::ENOTTY),
        (MeasureVerityError::Io(Some(libc::EOPNOTSUPP)), libc::ENOTTY),
        (MeasureVerityError::Io(Some(libc::ENOTTY)), libc::ENOTTY),
        (MeasureVerityError::Io(Some(libc::EACCES)), libc::EACCES),
        (MeasureVerityError::Io(None), libc::EIO),
    ];
    for (err, errno) in cases {
        assert_eq!(verify_image_digest(Err(err), &found, &e), Err(errno));
    }
}

fn returned(run: &MountRun) -> Option<MountReturn> {
    match run.action() {
        MountAction::Return(returned) => Some(returned),
        _ => None,
    }
}

fn failed(errno: i32) -> Option<MountReturn> {
    Some(MountReturn { code: -1, errno: Some(errno) })
}

/// Gives the replies one after the other, and tells the actions that they answer and
/// the one that follows.
fn actions(mut run: MountRun, replies: Vec<MountReply>) -> Vec<String> {
    let mut actions = vec![format!("{:?}", run.action())];
    for reply in replies {
        run.reply(reply, &ErrnoTable::host());
        actions.push(format!("{:?}", run.action()));
    }
    actions
}

/// What is returned after the replies.
fn result(mut run: MountRun, replies: Vec<MountReply>) -> Option<MountReturn> {
    for reply in replies {
        assert_eq!(returned(&run), None);
        run.reply(reply, &ErrnoTable::host());
    }
    returned(&run)
}

#[test]
fn mounting_a_path_checks_names_and_options() {
    let e = ErrnoTable::host();
    let mut bad = options();
    bad.flags = 64;
    let start = |path, mountpoint, o: Option<&LcfsMountOptions>| {
        returned(&lcfs_mount_image(path, mountpoint, o, &e))
    };
    assert_eq!(start(true, true, None), None);
    assert_eq!(start(true, true, Some(&options())), None);
    assert_eq!(start(false, true, None), failed(libc::EINVAL));
    assert_eq!(start(true, false, None), failed(libc::EINVAL));
    assert_eq!(start(true, true, Some(&bad)), failed(libc::EINVAL));
}

#[test]
fn mounting_a_file_checks_its_arguments() {
    let e = ErrnoTable::host();
    let mut bad = options();
    bad.idmap_fd = -5;
    bad.flags = LCFS_MOUNT_FLAGS_IDMAP;
    let start = |fd, mountpoint, o: Option<&LcfsMountOptions>| {
        returned(&lcfs_mount_fd(fd, mountpoint, o, &e))
    };
    assert_eq!(start(-1, true, None), failed(libc::EINVAL));
    assert_eq!(start(0, false, None), failed(libc::EINVAL));
    assert_eq!(start(0, true, Some(&bad)), failed(libc::EINVAL));
    assert_eq!(start(0, true, None), None);
    assert_eq!(start(i32::MAX, true, Some(&options())), None);
}

#[test]
fn images_without_backing_files_are_mounted_alone() {
    let e = ErrnoTable::host();
    let mut o = options();
    o.objdirs = vec![None, None];
    o.flags = LCFS_MOUNT_FLAGS_REQUIRE_VERITY;
    for opts in [None, Some(&o)] {
        let run = lcfs_mount_fd(7, true, opts, &e);
        assert_eq!(
            actions(run, vec![MountReply::Done, MountReply::Done, MountReply::Done]),
            [
                "Duplicate(7)",
                "MakeErofs",
                "Attach",
                "Return(MountReturn { code: 0, errno: None })"
            ]
        );
    }
}

#[test]
fn backing_files_follow_the_options() {
    let e = ErrnoTable::host();
    let mut o = options();
    o.objdirs = vec![Some(b"a".to_vec()), None, Some(b"b".to_vec())];
    o.idmap_fd = 9;
    let cases = [
        (0, VerityRequirement::Disabled, false),
        (LCFS_MOUNT_FLAGS_TRY_VERITY, VerityRequirement::Try, false),
        (LCFS_MOUNT_FLAGS_REQUIRE_VERITY, VerityRequirement::Required, false),
        (
            LCFS_MOUNT_FLAGS_REQUIRE_VERITY | LCFS_MOUNT_FLAGS_TRY_VERITY,
            VerityRequirement::Required,
            false,
        ),
        (LCFS_MOUNT_FLAGS_IDMAP, VerityRequirement::Disabled, true),
    ];
    for (flags, verity, idmap) in cases {
        o.flags = flags;
        let mut expected = vec![
            "Duplicate(3)".to_string(),
            "OpenDir([97])".to_string(),
            "OpenDir([98])".to_string(),
        ];
        if idmap {
            expected.push("DuplicateIdmap(9)".to_string());
        }
        expected.push(format!("MakeComposefs({verity:?})"));
        expected.push("Attach".to_string());
        expected.push("Return(MountReturn { code: 0, errno: None })".to_string());
        let replies = expected[1..].iter().map(|_| MountReply::Done).collect();
        assert_eq!(actions(lcfs_mount_fd(3, true, Some(&o), &e), replies), expected);
    }
}

#[test]
fn only_the_expected_image_is_mounted() {
    let e = ErrnoTable::host();
    let digest = [0xabu8; 32];
    let mut o = options();
    o.objdirs = vec![Some(b"/a".to_vec())];
    o.expected_fsverity_digest = Some(hex_of(&digest));
    let measured = |reply| {
        let mut run = lcfs_mount_fd(5, true, Some(&o), &e);
        run.reply(MountReply::Done, &e);
        assert!(matches!(run.action(), MountAction::Measure));
        run.reply(MountReply::Measured(reply), &e);
        run
    };
    assert!(matches!(measured(Ok(digest)).action(), MountAction::OpenDir(_)));
    assert_eq!(returned(&measured(Ok([0xacu8; 32]))), failed(libc::EILSEQ));
    let missing = measured(Err(MeasureVerityError::VerityMissing));
    assert_eq!(returned(&missing), failed(libc::ENOTTY));
}

#[test]
fn opened_images_are_closed() {
    let e = ErrnoTable::host();
    let start = || lcfs_mount_image(true, true, None, &e);
    let opened = || MountReply::Opened(4);
    assert_eq!(
        actions(
            start(),
            vec![opened(), MountReply::Done, MountReply::Done, MountReply::Done, MountReply::Done]
        ),
        [
            "Open",
            "Duplicate(4)",
            "MakeErofs",
            "Attach",
            "Close(4)",
            "Return(MountReturn { code: 0, errno: None })"
        ]
    );
    // A failed mount closes the image too
    assert_eq!(
        actions(start(), vec![opened(), MountReply::Done, MountReply::Errno(12)])[3],
        "Close(4)"
    );
    // An image that was not opened is not closed
    assert_eq!(result(start(), vec![MountReply::Errno(libc::ENOENT)]), failed(libc::ENOENT));
}

#[test]
fn failed_calls_are_returned() {
    let e = ErrnoTable::host();
    let mut o = options();
    o.objdirs = vec![Some(b"/a".to_vec())];
    o.flags = LCFS_MOUNT_FLAGS_IDMAP;
    o.idmap_fd = 1;
    for good in 0..5 {
        let after = |reply| {
            let mut replies: Vec<MountReply> = (0..good).map(|_| MountReply::Done).collect();
            replies.push(reply);
            result(lcfs_mount_fd(0, true, Some(&o), &e), replies)
        };
        assert_eq!(after(MountReply::Errno(libc::EBUSY)), failed(libc::EBUSY), "{good}");
        assert_eq!(after(MountReply::NoErrno), failed(libc::EINVAL), "{good}");
        let reported = Some(MountReturn { code: -1, errno: None });
        assert_eq!(after(MountReply::Reported), reported, "{good}");
    }
}

#[test]
fn failed_mounts_report_the_kernels_number() {
    let e = ErrnoTable::host();
    assert_eq!(io_error_to_errno(Some(libc::EBUSY), &e), libc::EBUSY);
    assert_eq!(io_error_to_errno(None, &e), libc::EINVAL);
}
