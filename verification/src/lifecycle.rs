//! A node's one life: where its key may lie, the latch that outlives the process, and
//! the claim that no second process can make.

use std::time::{SystemTime, UNIX_EPOCH};

use vstd::prelude::*;

use crate::node::{Node, NodeView, PendingProjection};
use crate::order::ascending;
use crate::replay::pending_at;
use crate::table::texts;
use crate::text::{hex_plain, owned, push_hex_plain};

verus! {

/// The type number of tmpfs.
pub const TMPFS_MAGIC: i64 = 0x0102_1994;

/// The type number of ramfs.
pub const RAMFS_MAGIC: i64 = 0x8584_58f6;

/// The error number for an attribute that is not there.
pub const ENODATA: i32 = 61;

/// The error number for a buffer that is too small.
pub const ERANGE: i32 = 34;

/// The error number for an operation that is not supported.
pub const EOPNOTSUPP: i32 = 95;

/// The variable that lets a node run on storage that survives a reboot.
pub const ALLOW_DURABLE_STORAGE_ENV: &'static str = "BTC_VAULT_ALLOW_DURABLE_STORAGE";

/// What a file system's type says of a key that lies on it.
#[derive(Clone, Copy, Debug, PartialEq, Eq, Structural)]
pub enum Decision {
    /// The key is gone after a reboot.
    Volatile,
    /// It may not be, and that was allowed.
    OverrideDurable,
    RejectDurable,
}

/// Judges a file system by its type: only the two that live in memory pass.
pub fn classify_fs(f_type: i64, override_on: bool) -> (decision: Decision)
    ensures
        decision == if f_type == TMPFS_MAGIC || f_type == RAMFS_MAGIC {
            Decision::Volatile
        } else if override_on {
            Decision::OverrideDurable
        } else {
            Decision::RejectDurable
        },
{
    if f_type == TMPFS_MAGIC || f_type == RAMFS_MAGIC {
        Decision::Volatile
    } else if override_on {
        Decision::OverrideDurable
    } else {
        Decision::RejectDurable
    }
}

/// What comes of looking at the storage: a warning is for the log, a refusal ends the
/// start.
#[derive(Debug)]
pub enum StorageVerdict {
    Pass,
    Warn(String),
    Refuse(String),
}

/// The contents of a [`StorageVerdict`].
pub enum StorageVerdictView {
    Pass,
    Warn(Seq<char>),
    Refuse(Seq<char>),
}

impl View for StorageVerdict {
    type V = StorageVerdictView;

    open spec fn view(&self) -> StorageVerdictView {
        match self {
            StorageVerdict::Pass => StorageVerdictView::Pass,
            StorageVerdict::Warn(s) => StorageVerdictView::Warn(s@),
            StorageVerdict::Refuse(s) => StorageVerdictView::Refuse(s@),
        }
    }
}

/// A type number as sixty-four unsigned bits.
pub open spec fn type_bits(f_type: i64) -> int {
    if f_type >= 0 {
        f_type as int
    } else {
        f_type + 0x1_0000_0000_0000_0000
    }
}

/// What comes of looking at the storage. `stat` is the file system's type, or why it
/// could not be read.
pub open spec fn storage_verdict(stat: Result<i64, Seq<char>>, enforcement_off: bool) ->
    StorageVerdictView {
    match stat {
        Err(e) => if enforcement_off {
            StorageVerdictView::Warn(
                "WARNING: vault-node could not determine the config/key filesystem type (fstatfs failed: "@
                    + e
                    + "); the reboot-death model (ADR-0007) assumes tmpfs/ramfs. Proceeding only because storage enforcement is disabled."@,
            )
        } else {
            StorageVerdictView::Refuse(
                "cannot determine the config/key filesystem type (fstatfs failed: "@ + e
                    + "); vault-node's reboot-death model (ADR-0007) requires the config/key inode to live on tmpfs or ramfs. Deploy on tmpfs, or set "@
                    + ALLOW_DURABLE_STORAGE_ENV@
                    + "=1 (INSECURE — defeats reboot-death) to override."@,
            )
        },
        Ok(f_type) => if f_type == TMPFS_MAGIC || f_type == RAMFS_MAGIC {
            StorageVerdictView::Pass
        } else if enforcement_off {
            StorageVerdictView::Warn(
                "WARNING: vault-node's config/key inode is on a non-volatile filesystem (statfs f_type "@
                    + hex_plain(type_bits(f_type) as nat)
                    + "); the reboot-death model (ADR-0007) assumes tmpfs/ramfs so the signing key, Lockdown latch, and process-generation xattr are wiped on reboot. Proceeding only because storage enforcement is disabled (INSECURE)."@,
            )
        } else {
            StorageVerdictView::Refuse(
                "the config/key inode is on a non-volatile filesystem (statfs f_type "@ + hex_plain(
                    type_bits(f_type) as nat,
                )
                    + "); vault-node's reboot-death model (ADR-0007) requires tmpfs or ramfs so the signing key, Lockdown latch, and process-generation xattr do NOT survive a reboot — otherwise operator recovery could resurrect an unlocked signer. Deploy on tmpfs, or set "@
                    + ALLOW_DURABLE_STORAGE_ENV@
                    + "=1 (INSECURE — defeats reboot-death) to override."@,
            )
        },
    }
}

/// Judges the storage that the configuration and the key lie on.
pub fn assert_volatile_storage(stat: Result<i64, String>, enforcement_off: bool) -> (verdict:
    StorageVerdict)
    ensures
        verdict@ == storage_verdict(
            match stat {
                Ok(f_type) => Ok(f_type),
                Err(e) => Err(e@),
            },
            enforcement_off,
        ),
{
    let f_type = match stat {
        Ok(f_type) => f_type,
        Err(e) => {
            if enforcement_off {
                let mut text = owned(
                    "WARNING: vault-node could not determine the config/key filesystem type (fstatfs failed: ",
                );
                text.append(e.as_str());
                text.append(
                    "); the reboot-death model (ADR-0007) assumes tmpfs/ramfs. Proceeding only because storage enforcement is disabled.",
                );
                return StorageVerdict::Warn(text);
            }
            let mut text = owned(
                "cannot determine the config/key filesystem type (fstatfs failed: ",
            );
            text.append(e.as_str());
            text.append(
                "); vault-node's reboot-death model (ADR-0007) requires the config/key inode to live on tmpfs or ramfs. Deploy on tmpfs, or set ",
            );
            text.append(ALLOW_DURABLE_STORAGE_ENV);
            text.append("=1 (INSECURE — defeats reboot-death) to override.");
            return StorageVerdict::Refuse(text);
        },
    };
    let bits: u64 = if f_type >= 0 {
        f_type as u64
    } else {
        u64::MAX - (-(f_type + 1)) as u64
    };
    match classify_fs(f_type, enforcement_off) {
        Decision::Volatile => StorageVerdict::Pass,
        Decision::OverrideDurable => {
            let mut text = owned(
                "WARNING: vault-node's config/key inode is on a non-volatile filesystem (statfs f_type ",
            );
            push_hex_plain(&mut text, bits);
            text.append(
                "); the reboot-death model (ADR-0007) assumes tmpfs/ramfs so the signing key, Lockdown latch, and process-generation xattr are wiped on reboot. Proceeding only because storage enforcement is disabled (INSECURE).",
            );
            StorageVerdict::Warn(text)
        },
        Decision::RejectDurable => {
            let mut text = owned(
                "the config/key inode is on a non-volatile filesystem (statfs f_type ",
            );
            push_hex_plain(&mut text, bits);
            text.append(
                "); vault-node's reboot-death model (ADR-0007) requires tmpfs or ramfs so the signing key, Lockdown latch, and process-generation xattr do NOT survive a reboot — otherwise operator recovery could resurrect an unlocked signer. Deploy on tmpfs, or set ",
            );
            text.append(ALLOW_DURABLE_STORAGE_ENV);
            text.append("=1 (INSECURE — defeats reboot-death) to override.");
            StorageVerdict::Refuse(text)
        },
    }
}

/// An error of the operating system.
#[derive(Debug)]
pub struct OsError {
    pub code: Option<i32>,
    pub text: String,
}

/// The contents of an [`OsError`].
pub struct OsErrorView {
    pub code: Option<i32>,
    pub text: Seq<char>,
}

impl View for OsError {
    type V = OsErrorView;

    open spec fn view(&self) -> OsErrorView {
        OsErrorView { code: self.code, text: self.text@ }
    }
}

/// What is to be asked next while an attribute is read.
#[derive(Debug)]
pub enum XattrStep {
    /// How long the value is.
    Size { retried: bool },
    /// The value, into a buffer of that length.
    Value { retried: bool, size: usize },
    /// Nothing more. An attribute that is not there has no value.
    Done(Result<Option<Vec<u8>>, String>),
}

/// The contents of an [`XattrStep`].
pub enum XattrStepView {
    Size { retried: bool },
    Value { retried: bool, size: usize },
    Done(Result<Option<Seq<u8>>, Seq<char>>),
}

impl View for XattrStep {
    type V = XattrStepView;

    open spec fn view(&self) -> XattrStepView {
        match self {
            XattrStep::Size { retried } => XattrStepView::Size { retried: *retried },
            XattrStep::Value { retried, size } => XattrStepView::Value {
                retried: *retried,
                size: *size,
            },
            XattrStep::Done(Ok(Some(v))) => XattrStepView::Done(Ok(Some(v@))),
            XattrStep::Done(Ok(None)) => XattrStepView::Done(Ok(None)),
            XattrStep::Done(Err(e)) => XattrStepView::Done(Err(e@)),
        }
    }
}

/// An answer while an attribute is read.
#[derive(Debug)]
pub enum XattrEvent {
    Sized(Result<usize, OsError>),
    /// How many bytes there are, and the buffer.
    Got(Result<(usize, Vec<u8>), OsError>),
}

/// The contents of an [`XattrEvent`].
pub enum XattrEventView {
    Sized(Result<usize, OsErrorView>),
    Got(Result<(usize, Seq<u8>), OsErrorView>),
}

impl View for XattrEvent {
    type V = XattrEventView;

    open spec fn view(&self) -> XattrEventView {
        match self {
            XattrEvent::Sized(Ok(n)) => XattrEventView::Sized(Ok(*n)),
            XattrEvent::Sized(Err(e)) => XattrEventView::Sized(Err(e@)),
            XattrEvent::Got(Ok((n, buffer))) => XattrEventView::Got(Ok((*n, buffer@))),
            XattrEvent::Got(Err(e)) => XattrEventView::Got(Err(e@)),
        }
    }
}

impl XattrStepView {
    /// How the reading goes on. A value that grew between the two calls is read once
    /// more, and then given up. An answer to something that was not asked changes
    /// nothing.
    pub open spec fn next(self, event: XattrEventView) -> XattrStepView {
        match (self, event) {
            (XattrStepView::Size { retried }, XattrEventView::Sized(answer)) => match answer {
                Ok(size) => XattrStepView::Value { retried, size },
                Err(e) => if e.code == Some(ENODATA) {
                    XattrStepView::Done(Ok(None))
                } else if e.code == Some(EOPNOTSUPP) {
                    XattrStepView::Done(
                        Err(
                            "the config/key filesystem does not support user.* extended attributes ("@
                                + e.text
                                + "); vault-node's process-generation gate and Lockdown latch require them — run the RAMDISK on tmpfs with Linux >= 6.6 (or another filesystem with user.* xattr support)"@,
                        ),
                    )
                } else {
                    XattrStepView::Done(Err("cannot read lifecycle attribute: "@ + e.text))
                },
            },
            (XattrStepView::Value { retried, size }, XattrEventView::Got(answer)) => match answer {
                Err(e) => if e.code == Some(ERANGE) && !retried {
                    XattrStepView::Size { retried: true }
                } else {
                    XattrStepView::Done(Err("cannot read lifecycle attribute value: "@ + e.text))
                },
                Ok((n, buffer)) => if n > size {
                    if retried {
                        XattrStepView::Done(
                            Err("lifecycle attribute changed repeatedly while being read"@),
                        )
                    } else {
                        XattrStepView::Size { retried: true }
                    }
                } else {
                    XattrStepView::Done(
                        Ok(
                            Some(
                                if n < buffer.len() {
                                    buffer.take(n as int)
                                } else {
                                    buffer
                                },
                            ),
                        ),
                    )
                },
            },
            _ => self,
        }
    }
}

impl XattrStep {
    /// The first step.
    pub fn read() -> (step: XattrStep)
        ensures
            step@ == (XattrStepView::Size { retried: false }),
    {
        XattrStep::Size { retried: false }
    }

    /// Takes the answer to what was asked.
    pub fn next(self, event: XattrEvent) -> (step: XattrStep)
        ensures
            step@ == self@.next(event@),
    {
        match (self, event) {
            (XattrStep::Size { retried }, XattrEvent::Sized(answer)) => match answer {
                Ok(size) => XattrStep::Value { retried, size },
                Err(e) => {
                    match e.code {
                        Some(code) => {
                            if code == ENODATA {
                                return XattrStep::Done(Ok(None));
                            }
                            if code == EOPNOTSUPP {
                                let mut text = owned(
                                    "the config/key filesystem does not support user.* extended attributes (",
                                );
                                text.append(e.text.as_str());
                                text.append(
                                    "); vault-node's process-generation gate and Lockdown latch require them — run the RAMDISK on tmpfs with Linux >= 6.6 (or another filesystem with user.* xattr support)",
                                );
                                return XattrStep::Done(Err(text));
                            }
                        },
                        None => {},
                    }
                    let mut text = owned("cannot read lifecycle attribute: ");
                    text.append(e.text.as_str());
                    XattrStep::Done(Err(text))
                },
            },
            (XattrStep::Value { retried, size }, XattrEvent::Got(answer)) => match answer {
                Err(e) => {
                    let too_small = match e.code {
                        Some(code) => code == ERANGE,
                        None => false,
                    };
                    if too_small && !retried {
                        return XattrStep::Size { retried: true };
                    }
                    let mut text = owned("cannot read lifecycle attribute value: ");
                    text.append(e.text.as_str());
                    XattrStep::Done(Err(text))
                },
                Ok((n, buffer)) => {
                    if n > size {
                        if retried {
                            return XattrStep::Done(
                                Err(owned("lifecycle attribute changed repeatedly while being read")),
                            );
                        }
                        return XattrStep::Size { retried: true };
                    }
                    let mut value = buffer;
                    if n < value.len() {
                        value.truncate(n);
                    }
                    XattrStep::Done(Ok(Some(value)))
                },
            },
            (step, _) => step,
        }
    }
}

/// How many answers are still needed at most.
pub open spec fn reads_left(step: XattrStepView) -> nat {
    match step {
        XattrStepView::Size { retried } => if retried {
            2
        } else {
            4
        },
        XattrStepView::Value { retried, .. } => if retried {
            1
        } else {
            3
        },
        XattrStepView::Done(_) => 0,
    }
}

/// The reading ends: it is tried at most twice.
pub proof fn a_read_ends(step: XattrStepView, event: XattrEventView)
    requires
        (step is Size && event is Sized) || (step is Value && event is Got),
    ensures
        reads_left(step.next(event)) < reads_left(step),
{
}

/// What is to be asked next about the latch of Lockdown while the node starts.
#[derive(Debug)]
pub enum LatchStep {
    /// What the latch holds.
    Read,
    /// To put an open latch there.
    Create,
    /// To make it lasting.
    Sync,
    /// What the latch holds that someone else put there meanwhile.
    ReadAgain,
    /// Nothing more: whether the latch is closed.
    Done(Result<bool, String>),
}

/// The contents of a [`LatchStep`].
pub enum LatchStepView {
    Read,
    Create,
    Sync,
    ReadAgain,
    Done(Result<bool, Seq<char>>),
}

impl View for LatchStep {
    type V = LatchStepView;

    open spec fn view(&self) -> LatchStepView {
        match self {
            LatchStep::Read => LatchStepView::Read,
            LatchStep::Create => LatchStepView::Create,
            LatchStep::Sync => LatchStepView::Sync,
            LatchStep::ReadAgain => LatchStepView::ReadAgain,
            LatchStep::Done(Ok(b)) => LatchStepView::Done(Ok(*b)),
            LatchStep::Done(Err(e)) => LatchStepView::Done(Err(e@)),
        }
    }
}

/// An answer about the latch.
#[derive(Debug)]
pub enum LatchEvent {
    /// The attribute's value, if it is there.
    Marker(Result<Option<Vec<u8>>, String>),
    Created,
    AlreadyThere,
    CreateFailed { error: String },
    Synced(Result<(), String>),
}

/// The contents of a [`LatchEvent`].
pub enum LatchEventView {
    Marker(Result<Option<Seq<u8>>, Seq<char>>),
    Created,
    AlreadyThere,
    CreateFailed { error: Seq<char> },
    Synced(Result<(), Seq<char>>),
}

impl View for LatchEvent {
    type V = LatchEventView;

    open spec fn view(&self) -> LatchEventView {
        match self {
            LatchEvent::Marker(Ok(Some(v))) => LatchEventView::Marker(Ok(Some(v@))),
            LatchEvent::Marker(Ok(None)) => LatchEventView::Marker(Ok(None)),
            LatchEvent::Marker(Err(e)) => LatchEventView::Marker(Err(e@)),
            LatchEvent::Created => LatchEventView::Created,
            LatchEvent::AlreadyThere => LatchEventView::AlreadyThere,
            LatchEvent::CreateFailed { error } => LatchEventView::CreateFailed { error: error@ },
            LatchEvent::Synced(Ok(_)) => LatchEventView::Synced(Ok(())),
            LatchEvent::Synced(Err(e)) => LatchEventView::Synced(Err(e@)),
        }
    }
}

impl LatchStepView {
    /// How the start goes on. A latch that holds anything is closed. `path` is where
    /// the configuration lies. An answer to something that was not asked changes
    /// nothing.
    pub open spec fn next(self, event: LatchEventView, path: Seq<char>) -> LatchStepView {
        match (self, event) {
            (LatchStepView::Read, LatchEventView::Marker(answer)) => match answer {
                Err(e) => LatchStepView::Done(Err(e)),
                Ok(Some(v)) => LatchStepView::Done(Ok(v.len() > 0)),
                Ok(None) => LatchStepView::Create,
            },
            (LatchStepView::Create, LatchEventView::Created) => LatchStepView::Sync,
            (LatchStepView::Create, LatchEventView::AlreadyThere) => LatchStepView::ReadAgain,
            (LatchStepView::Create, LatchEventView::CreateFailed { error }) => {
                LatchStepView::Done(
                    Err(
                        "cannot create the RAMDISK Lockdown latch on "@ + path + " ("@ + error
                            + "); refusing to start rather than run unable to lock down"@,
                    ),
                )
            },
            (LatchStepView::Sync, LatchEventView::Synced(answer)) => match answer {
                Ok(_) => LatchStepView::Done(Ok(false)),
                Err(e) => LatchStepView::Done(
                    Err(
                        "cannot sync the RAMDISK Lockdown latch on "@ + path + " ("@ + e
                            + "); refusing to start"@,
                    ),
                ),
            },
            (LatchStepView::ReadAgain, LatchEventView::Marker(answer)) => match answer {
                Err(e) => LatchStepView::Done(Err(e)),
                Ok(Some(v)) => LatchStepView::Done(Ok(v.len() > 0)),
                Ok(None) => LatchStepView::Done(
                    Err("Lockdown latch disappeared during startup"@),
                ),
            },
            _ => self,
        }
    }
}

fn about_latch(start: &str, path: &String, e: &String, end: &str) -> (text: String)
    ensures
        text@ == start@ + path@ + " ("@ + e@ + end@,
{
    let mut text = owned(start);
    text.append(path.as_str());
    text.append(" (");
    text.append(e.as_str());
    text.append(end);
    text
}

impl LatchStep {
    /// Takes the answer to what was asked.
    pub fn next(self, event: LatchEvent, path: &String) -> (step: LatchStep)
        ensures
            step@ == self@.next(event@, path@),
    {
        match (self, event) {
            (LatchStep::Read, LatchEvent::Marker(answer)) => match answer {
                Err(e) => LatchStep::Done(Err(e)),
                Ok(Some(v)) => LatchStep::Done(Ok(v.len() > 0)),
                Ok(None) => LatchStep::Create,
            },
            (LatchStep::Create, LatchEvent::Created) => LatchStep::Sync,
            (LatchStep::Create, LatchEvent::AlreadyThere) => LatchStep::ReadAgain,
            (LatchStep::Create, LatchEvent::CreateFailed { error }) => LatchStep::Done(
                Err(
                    about_latch(
                        "cannot create the RAMDISK Lockdown latch on ",
                        path,
                        &error,
                        "); refusing to start rather than run unable to lock down",
                    ),
                ),
            ),
            (LatchStep::Sync, LatchEvent::Synced(answer)) => match answer {
                Ok(_) => LatchStep::Done(Ok(false)),
                Err(e) => LatchStep::Done(
                    Err(
                        about_latch(
                            "cannot sync the RAMDISK Lockdown latch on ",
                            path,
                            &e,
                            "); refusing to start",
                        ),
                    ),
                ),
            },
            (LatchStep::ReadAgain, LatchEvent::Marker(answer)) => match answer {
                Err(e) => LatchStep::Done(Err(e)),
                Ok(Some(v)) => LatchStep::Done(Ok(v.len() > 0)),
                Ok(None) => LatchStep::Done(
                    Err(owned("Lockdown latch disappeared during startup")),
                ),
            },
            (step, _) => step,
        }
    }
}

/// A closed latch is never taken for an open one: where the start goes on unlocked,
/// the latch was read empty, or was put there empty just now.
pub proof fn an_unlocked_start_has_an_open_latch(
    step: LatchStepView,
    event: LatchEventView,
    path: Seq<char>,
)
    requires
        !(step is Done),
        step.next(event, path) == LatchStepView::Done(Ok(false)),
    ensures
        step is Sync || event == LatchEventView::Marker(Ok(Some(Seq::<u8>::empty()))),
{
    if let LatchEventView::Marker(Ok(Some(v))) = event {
        assert(v.len() == 0 ==> v =~= Seq::<u8>::empty());
    }
}

/// What is wrong with a claim on the process generation, if anything: it needs the
/// file that the configuration was read from, and both writes.
pub open spec fn claim_fault(
    has_file: bool,
    written: Result<(), Seq<char>>,
    synced: Result<(), Seq<char>>,
) -> Option<Seq<char>> {
    if !has_file {
        Some("cannot claim a process generation without a loaded config inode"@)
    } else {
        match written {
            Err(e) => Some(
                "cannot claim one-shot process generation on the config/key inode ("@ + e
                    + "); refusing to reload a signing key whose RAM-only Armed/candidate state may have died"@,
            ),
            Ok(_) => match synced {
                Err(e) => Some(
                    "cannot sync the process-generation marker on the config/key inode ("@ + e
                        + "); refusing to start"@,
                ),
                Ok(_) => None,
            },
        }
    }
}

/// A result without its value.
pub open spec fn outcome(r: Result<(), String>) -> Result<(), Seq<char>> {
    match r {
        Ok(_) => Ok(()),
        Err(e) => Err(e@),
    }
}

impl Node {
    /// Takes over the latch that survived from before this process.
    pub fn apply_persisted_lockdown(&mut self, latched: bool)
        ensures
            final(self)@ == (NodeView { lockdown: old(self)@.lockdown || latched, ..old(self)@ }),
    {
        if latched {
            self.lockdown = true;
        }
    }

    /// Claims the one process generation that this key has. `written` and `synced` are
    /// what became of the marker on disk.
    pub fn claim_process_generation(
        &mut self,
        has_file: bool,
        written: Result<(), String>,
        synced: Result<(), String>,
    ) -> (out: Result<(), String>)
        ensures
            match out {
                Ok(()) => {
                    &&& claim_fault(has_file, outcome(written), outcome(synced)) is None
                    &&& final(self)@ == (NodeView { generation_claimed: true, ..old(self)@ })
                },
                Err(e) => {
                    &&& claim_fault(has_file, outcome(written), outcome(synced)) == Some(e@)
                    &&& final(self)@ == old(self)@
                },
            },
    {
        if !has_file {
            return Err(
                owned("cannot claim a process generation without a loaded config inode"),
            );
        }
        if let Err(e) = written {
            let mut text = owned(
                "cannot claim one-shot process generation on the config/key inode (",
            );
            text.append(e.as_str());
            text.append(
                "); refusing to reload a signing key whose RAM-only Armed/candidate state may have died",
            );
            return Err(text);
        }
        if let Err(e) = synced {
            let mut text = owned(
                "cannot sync the process-generation marker on the config/key inode (",
            );
            text.append(e.as_str());
            text.append("); refusing to start");
            return Err(text);
        }
        self.generation_claimed = true;
        Ok(())
    }

    /// The spends held right now, by commitment, in order. Which they are depends on
    /// the wall clock; that they are those held at some time is all that is stated.
    pub fn pending_projection_now(&self) -> (projection: PendingProjection)
        ensures
            ascending(texts(projection.pending@)),
            exists|now: u64|
                texts(projection.pending@).to_set() == pending_at(
                    self@.sign_state.pending,
                    #[trigger] self@.sign_state.coord_nonces.effective_now(now),
                ).dom(),
    {
        self.pending_projection(unix_now())
    }
}

/// `std::time::SystemTime::duration_since` the epoch, for the time that
/// `std::time::SystemTime::now` reads, in whole seconds; nothing where the clock stands
/// before the epoch. Nothing is claimed of the reading.
#[verifier::external_body]
fn since_epoch() -> (secs: Option<u64>) {
    SystemTime::now().duration_since(UNIX_EPOCH).map(|d| d.as_secs()).ok()
}

/// The seconds that a reading of the clock stands for: none where it stands before the
/// epoch.
pub fn epoch_seconds(reading: Option<u64>) -> (secs: u64)
    ensures
        secs == match reading {
            Some(secs) => secs,
            None => 0,
        },
{
    match reading {
        Some(secs) => secs,
        None => 0,
    }
}

/// The wall clock, in seconds. Nothing holds of every reading.
pub fn unix_now() -> u64 {
    epoch_seconds(since_epoch())
}

/// A node starts without a word exactly where its key lies on storage that does not outlast
/// a reboot. Elsewhere, or where that cannot be told, it refuses, unless enforcement is
/// off: then it warns.
pub proof fn durable_storage_is_refused(stat: Result<i64, Seq<char>>, enforcement_off: bool)
    ensures
        ({
            let verdict = storage_verdict(stat, enforcement_off);
            let volatile = stat matches Ok(t) && (t == 0x0102_1994 || t == 0x8584_58f6);
            &&& verdict is Pass <==> volatile
            &&& verdict is Warn <==> !volatile && enforcement_off
            &&& verdict is Refuse <==> !volatile && !enforcement_off
        }),
{
}

/// An attribute is read as it was returned, cut to its length, where it is no longer than
/// what was made room for; a missing one reads as none; and one that outgrew its room is
/// read once more, not twice.
pub proof fn an_attribute_is_read_as_it_is(
    size: usize,
    got: usize,
    buffer: Seq<u8>,
    retried: bool,
    error: OsErrorView,
)
    ensures
        ({
            let value = XattrStepView::Value { retried, size };
            let read = value.next(XattrEventView::Got(Ok((got, buffer))));
            let sized = XattrStepView::Size { retried };
            &&& got <= size && got <= buffer.len() ==> read == XattrStepView::Done(
                Ok(Some(buffer.subrange(0, got as int))),
            )
            &&& got > size && !retried ==> read == (XattrStepView::Size { retried: true })
            &&& got > size && retried ==> (read matches XattrStepView::Done(Err(_)))
            &&& sized.next(XattrEventView::Sized(Ok(size))) == value
            &&& error.code == Some(61i32) ==> sized.next(XattrEventView::Sized(Err(error)))
                == XattrStepView::Done(Ok(None))
            &&& error.code != Some(61i32) ==> (sized.next(
                XattrEventView::Sized(Err(error)),
            ) matches XattrStepView::Done(Err(_)))
            &&& error.code == Some(34i32) && !retried ==> value.next(
                XattrEventView::Got(Err(error)),
            ) == (XattrStepView::Size { retried: true })
            &&& error.code != Some(34i32) || retried ==> (value.next(
                XattrEventView::Got(Err(error)),
            ) matches XattrStepView::Done(Err(_)))
        }),
{
    if got <= buffer.len() {
        assert(buffer.take(got as int) =~= buffer.subrange(0, got as int));
        if got == buffer.len() {
            assert(buffer.subrange(0, got as int) =~= buffer);
        }
    }
}

/// A node starts locked exactly where the latch that it finds is marked; it creates the
/// latch only where there is none, starts unlocked once that is synced, and refuses to
/// start where the latch can be neither read nor created.
pub proof fn a_marked_latch_locks(marker: Seq<u8>, error: Seq<char>, path: Seq<char>)
    ensures
        ({
            let found = LatchEventView::Marker(Ok(Some(marker)));
            let lost = LatchEventView::Marker(Err(error));
            let none = LatchEventView::Marker(Ok(None));
            let locked = LatchStepView::Done(Ok(marker.len() > 0));
            &&& LatchStepView::Read.next(found, path) == locked
            &&& LatchStepView::Read.next(none, path) is Create
            &&& LatchStepView::Create.next(LatchEventView::Created, path) is Sync
            &&& LatchStepView::Create.next(LatchEventView::AlreadyThere, path).next(found, path)
                == locked
            &&& LatchStepView::Sync.next(LatchEventView::Synced(Ok(())), path)
                == LatchStepView::Done(Ok(false))
            &&& LatchStepView::Read.next(lost, path) == LatchStepView::Done(Err(error))
            &&& LatchStepView::ReadAgain.next(lost, path) == LatchStepView::Done(Err(error))
            &&& LatchStepView::ReadAgain.next(none, path) matches LatchStepView::Done(Err(_))
            &&& LatchStepView::Create.next(
                LatchEventView::CreateFailed { error },
                path,
            ) matches LatchStepView::Done(Err(_))
            &&& LatchStepView::Sync.next(
                LatchEventView::Synced(Err(error)),
                path,
            ) matches LatchStepView::Done(Err(_))
        }),
{
}

/// A process generation is claimed only with the configuration's file at hand, where the
/// mark was written and is on storage.
pub proof fn a_generation_is_claimed_for_good(
    has_file: bool,
    written: Result<(), Seq<char>>,
    synced: Result<(), Seq<char>>,
)
    ensures
        claim_fault(has_file, written, synced) is None <==> has_file && written is Ok && synced
            is Ok,
{
}

} // verus!
