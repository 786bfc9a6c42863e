//! Where a node's key may lie, and what outlives its process.

use vault_node::lifecycle::{
    assert_volatile_storage, classify_fs, epoch_seconds, unix_now, Decision, LatchEvent, LatchStep,
    OsError, StorageVerdict, XattrEvent, XattrStep, ENODATA, EOPNOTSUPP, ERANGE, RAMFS_MAGIC,
    TMPFS_MAGIC,
};

const EXT4_MAGIC: i64 = 0xEF53;

#[test]
fn classify_fs_passes_only_confirmed_volatile_filesystems() {
    assert_eq!(classify_fs(TMPFS_MAGIC, false), Decision::Volatile);
    assert_eq!(classify_fs(RAMFS_MAGIC, false), Decision::Volatile);
    assert_eq!(classify_fs(TMPFS_MAGIC, true), Decision::Volatile);
    assert_eq!(classify_fs(RAMFS_MAGIC, true), Decision::Volatile);

    assert_eq!(classify_fs(EXT4_MAGIC, false), Decision::RejectDurable);
    assert_eq!(classify_fs(EXT4_MAGIC, true), Decision::OverrideDurable);
    assert_eq!(classify_fs(0, false), Decision::RejectDurable);
    assert_eq!(classify_fs(0, true), Decision::OverrideDurable);
}

#[test]
fn the_volatile_magics_are_the_documented_kernel_constants() {
    assert_eq!(TMPFS_MAGIC, 0x0102_1994);
    assert_eq!(RAMFS_MAGIC, 0x8584_58f6);
}

#[test]
fn durable_storage_is_refused_or_warned_about() {
    assert!(matches!(assert_volatile_storage(Ok(TMPFS_MAGIC), false), StorageVerdict::Pass));
    match assert_volatile_storage(Ok(EXT4_MAGIC), false) {
        StorageVerdict::Refuse(text) => assert!(text.contains("(statfs f_type 0xef53)")),
        other => panic!("expected a refusal, got {other:?}"),
    }
    match assert_volatile_storage(Ok(-1), true) {
        StorageVerdict::Warn(text) => assert!(text.contains("0xffffffffffffffff")),
        other => panic!("expected a warning, got {other:?}"),
    }
    match assert_volatile_storage(Err("bad descriptor".to_string()), false) {
        StorageVerdict::Refuse(text) => assert!(text.contains("(fstatfs failed: bad descriptor)")),
        other => panic!("expected a refusal, got {other:?}"),
    }
    assert!(matches!(
        assert_volatile_storage(Err("x".to_string()), true),
        StorageVerdict::Warn(_)
    ));
}

fn os_error(code: i32) -> OsError {
    OsError { code: Some(code), text: format!("os error {code}") }
}

#[test]
fn an_attribute_is_read_in_two_calls() {
    let step = XattrStep::read().next(XattrEvent::Sized(Ok(4)));
    let step = step.next(XattrEvent::Got(Ok((3, vec![1, 2, 3, 0]))));
    match step {
        XattrStep::Done(Ok(Some(value))) => assert_eq!(value, vec![1, 2, 3]),
        other => panic!("{other:?}"),
    }
}

#[test]
fn an_absent_attribute_has_no_value() {
    assert!(matches!(
        XattrStep::read().next(XattrEvent::Sized(Err(os_error(ENODATA)))),
        XattrStep::Done(Ok(None))
    ));
    match XattrStep::read().next(XattrEvent::Sized(Err(os_error(EOPNOTSUPP)))) {
        XattrStep::Done(Err(text)) => assert!(text.contains("user.* extended attributes")),
        other => panic!("{other:?}"),
    }
    match XattrStep::read().next(XattrEvent::Sized(Err(os_error(5)))) {
        XattrStep::Done(Err(text)) => {
            assert_eq!(text, "cannot read lifecycle attribute: os error 5")
        }
        other => panic!("{other:?}"),
    }
}

#[test]
fn a_growing_attribute_is_read_once_more_and_then_given_up() {
    let step = XattrStep::read().next(XattrEvent::Sized(Ok(1)));
    let step = step.next(XattrEvent::Got(Err(os_error(ERANGE))));
    assert!(matches!(step, XattrStep::Size { retried: true }));
    let step = step.next(XattrEvent::Sized(Ok(2)));
    match step.next(XattrEvent::Got(Ok((3, vec![0, 0])))) {
        XattrStep::Done(Err(text)) => {
            assert_eq!(text, "lifecycle attribute changed repeatedly while being read")
        }
        other => panic!("{other:?}"),
    }
}

#[test]
fn a_start_creates_the_latch_or_adopts_it() {
    let path = "/run/vault/config.toml".to_string();
    let fresh = LatchStep::Read
        .next(LatchEvent::Marker(Ok(None)), &path)
        .next(LatchEvent::Created, &path)
        .next(LatchEvent::Synced(Ok(())), &path);
    assert!(matches!(fresh, LatchStep::Done(Ok(false))));
    let closed = LatchStep::Read.next(LatchEvent::Marker(Ok(Some(b"locked\n".to_vec()))), &path);
    assert!(matches!(closed, LatchStep::Done(Ok(true))));
    let raced = LatchStep::Read
        .next(LatchEvent::Marker(Ok(None)), &path)
        .next(LatchEvent::AlreadyThere, &path);
    assert!(matches!(raced, LatchStep::ReadAgain));
    match raced.next(LatchEvent::Marker(Ok(None)), &path) {
        LatchStep::Done(Err(text)) => assert_eq!(text, "Lockdown latch disappeared during startup"),
        other => panic!("{other:?}"),
    }
    match LatchStep::Create.next(LatchEvent::CreateFailed { error: "denied".to_string() }, &path) {
        LatchStep::Done(Err(text)) => assert_eq!(
            text,
            "cannot create the RAMDISK Lockdown latch on /run/vault/config.toml (denied); \
             refusing to start rather than run unable to lock down"
        ),
        other => panic!("{other:?}"),
    }
    match LatchStep::Sync.next(LatchEvent::Synced(Err("io".to_string())), &path) {
        LatchStep::Done(Err(text)) => assert!(text.contains("cannot sync the RAMDISK Lockdown latch")),
        other => panic!("{other:?}"),
    }
}

#[test]
fn the_wall_clock_is_read_in_seconds() {
    assert_eq!(epoch_seconds(Some(12)), 12);
    assert_eq!(epoch_seconds(None), 0);
    assert!(unix_now() > 1_600_000_000);
}
