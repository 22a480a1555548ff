//! Staging of backups.
//!
//! A staged backup reads a point-in-time copy of a volume: a volume restored from
//! a snapshot of the source, or a clone of it. Here stand the decisions; what
//! reads and writes the cluster calls them, and `staging_run` puts them in order.
use vstd::prelude::*;
use vstd::string::*;
use vstd::utf8::*;

use crate::clock::{
    FIRST_SECOND, LAST_SECOND, Moment, NANOS_PER_SEC, Span, later, on_calendar,
    rfc3339_zulu_text,
};
use crate::consts::{MANAGED_BY_LABEL, MANAGED_BY_VALUE, STAGED_COMPONENT_LABEL};
use crate::io::apply::{
    Json, JsonNumber, Tree, child, child_of, entries, entry, get, get_integer, get_text,
    get_true, integer_in, is_true, text_of, tree,
};
use crate::io::meta::{ApiResource, OwnerReference};
use crate::naming::{lemma_hex_is_ascii, lemma_short_hash_shape, short, short_hash, text_hash};
use crate::strmap::{StringMap, opt_map};
use crate::text::{
    byte_len, decimal, decimal_text, ends_in, holds_text, integer_of, is_digit, is_space, join,
    joined, lemma_characters, lemma_chars_within_bytes, lemma_decimal_reads_back,
    lemma_encode_concat, lemma_filter_none, lemma_filter_one, lemma_filter_some,
    lemma_filter_twice, lemma_holds_end, lemma_holds_itself, lemma_holds_on,
    lemma_trim_drops_ends, lemma_trimmed_stays, lemma_trimming, lemma_what_an_end_is,
    lemma_what_an_integer_is, opt_str, opt_text, parse_i128, same, same_opt, signed_decimal,
    signed_decimal_text, strip_suffix, texts, trim, trimmed,
};

verus! {

/// The API group of volume snapshots.
pub const SNAPSHOT_GROUP: &'static str = "snapshot.storage.k8s.io";

/// The version of that API group.
pub const SNAPSHOT_VERSION: &'static str = "snapshot.storage.k8s.io/v1";

/// The annotation of a driver's default class of volume snapshots.
pub const DEFAULT_CLASS_ANNOTATION: &'static str = "snapshot.storage.kubernetes.io/is-default-class";

/// The annotation of the default storage class.
pub const DEFAULT_STORAGE_CLASS_ANNOTATION: &'static str = "storageclass.kubernetes.io/is-default-class";

/// Reason: volume snapshots are not installed.
pub const REASON_STACK_MISSING: &'static str = "SnapshotStackMissing";

/// Reason: no class of volume snapshots can be used.
pub const REASON_NO_CLASS: &'static str = "NoVolumeSnapshotClass";

/// Reason: the snapshot still reported an error at the deadline.
pub const REASON_VS_FAILED: &'static str = "VolumeSnapshotFailed";

/// Reason: the snapshot missed the deadline without an error.
pub const REASON_STAGING_TIMEOUT: &'static str = "StagingTimedOut";

/// Reason: the source cannot be snapshotted.
pub const REASON_SOURCE_NOT_CSI: &'static str = "SourceNotCSIProvisioned";

/// Reason: the storage class for staging does not exist.
pub const REASON_STAGED_CLASS_NOT_FOUND: &'static str = "StagedClassNotFound";

/// Reason: the storage class for staging is one of another driver.
pub const REASON_STAGED_CLASS_MISMATCH: &'static str = "StagedClassMismatch";

/// Reason: the staged volume missed the deadline.
pub const REASON_STAGED_PVC_BIND_TIMEOUT: &'static str = "StagedPvcBindTimeout";

/// Reason: what the staged volume was bound to is gone.
pub const REASON_STAGED_PVC_LOST: &'static str = "StagedPvcLost";

/// Tells that nobody may have chosen the copy method, and how to choose another.
pub const COPY_METHOD_DEFAULTED_NOTE: &'static str = "copyMethod defaulted to Snapshot as of this release; set spec.copyMethod: Direct on the SnapshotPolicy to read the live PVC without CSI snapshots";

/// The longest name of an object, in bytes.
pub const MAX_NAME_LEN: usize = 63;

/// The whole seconds of the longest timeout that a deadline is kept for.
pub const LONGEST_TIMEOUT_SECS: u64 = 9_223_372_036_854_775;

/// The nanoseconds beyond them.
pub const LONGEST_TIMEOUT_NANOS: u32 = 807_000_000;

/// How a backup reads its source.
#[derive(Debug, Clone, Copy, PartialEq, Eq, Structural)]
pub enum CopyMethod {
    /// From a snapshot of it.
    Snapshot,
    /// From a clone of it.
    Clone,
    /// Live.
    Direct,
}

/// The staged volume that a mover mounts.
#[derive(Debug, Clone, PartialEq, Eq)]
pub struct StagedSource {
    /// Its name.
    pub pvc_name: String,
    /// The snapshot that it is restored from.
    pub volume_snapshot_name: Option<String>,
    /// The shared snapshot that this belongs to.
    pub volume_group_snapshot_name: Option<String>,
    /// How the copy was made.
    pub copy_method: &'static str,
    /// Its storage class.
    pub storage_class_name: Option<String>,
    /// The timeout of staging in seconds; none is zero.
    pub staging_timeout_seconds: i64,
}

/// What staging came to.
#[derive(Debug, Clone, PartialEq, Eq)]
pub enum StagingOutcome {
    /// Nothing is staged: the live source is mounted.
    NotApplicable,
    /// The staged volume is ready.
    Ready(StagedSource),
    /// Not yet.
    Waiting {
        /// What for, in one word.
        reason: &'static str,
        /// What for.
        message: String,
    },
    /// It cannot be staged. This is final for the `Snapshot`.
    Failed {
        /// Why, in one word.
        reason: &'static str,
        /// Why, and how to mend it.
        message: String,
    },
}

/// A class of volume snapshots.
#[derive(Debug, Clone, PartialEq, Eq)]
pub struct ClassInfo {
    /// Its name.
    pub name: String,
    /// Its driver.
    pub driver: String,
    /// Whether it is the default of its driver.
    pub is_default: bool,
}

/// Which class is used.
#[derive(Debug, Clone, PartialEq, Eq)]
pub enum ClassDecision {
    /// This one.
    Use(String),
    /// The one that was asked for does not exist.
    ExplicitNotFound(String),
    /// None is for the driver.
    NoneForDriver(String),
    /// Several are, and nothing tells which.
    Ambiguous {
        /// The driver.
        driver: String,
        /// Their names.
        candidates: Vec<String>,
    },
}

/// A reference to what a volume is filled from.
#[derive(Debug, Clone, PartialEq, Eq)]
pub struct TypedLocalObjectReference {
    /// The API group.
    pub api_group: Option<String>,
    /// The kind.
    pub kind: String,
    /// The name.
    pub name: String,
}

/// How a volume may be accessed.
#[derive(Debug, Clone, Copy, PartialEq, Eq, Structural)]
pub enum PvcAccessMode {
    /// By one node, to read and write.
    ReadWriteOnce,
    /// By many nodes, to read.
    ReadOnlyMany,
    /// By many nodes, to read and write.
    ReadWriteMany,
    /// By one pod, to read and write.
    ReadWriteOncePod,
}

/// What a policy says about staging.
#[derive(Debug, Clone, PartialEq, Eq)]
pub struct StagingSpec {
    /// The storage class of the staged volume, where it is not the source's.
    pub storage_class_name: Option<String>,
    /// How the staged volume may be accessed, where not as the source.
    pub access_modes: Vec<PvcAccessMode>,
}

/// What a volume claim asks for.
#[derive(Debug, Clone, PartialEq, Eq)]
pub struct PvcSpec {
    /// How it may be accessed.
    pub access_modes: Option<Vec<String>>,
    /// Its storage class.
    pub storage_class_name: Option<String>,
    /// Whether it is a file system or a block device.
    pub volume_mode: Option<String>,
    /// The volume that it is bound to.
    pub volume_name: Option<String>,
    /// The storage that it asks for.
    pub storage_request: Option<String>,
    /// What it is filled from.
    pub data_source: Option<TypedLocalObjectReference>,
}

/// A volume claim.
#[derive(Debug, Clone, PartialEq, Eq)]
pub struct PersistentVolumeClaim {
    /// Its name.
    pub name: Option<String>,
    /// Its namespace.
    pub namespace: Option<String>,
    /// Its labels.
    pub labels: Option<StringMap>,
    /// Its owners.
    pub owner_references: Vec<OwnerReference>,
    /// When it was made, in seconds since the Unix epoch.
    pub created_at: Option<i64>,
    /// What it asks for.
    pub spec: Option<PvcSpec>,
    /// Its phase.
    pub phase: Option<String>,
}

/// An object without a type of its own.
#[derive(Debug, PartialEq, Eq)]
pub struct DynamicObject {
    /// The version of its API.
    pub api_version: String,
    /// Its kind.
    pub kind: String,
    /// Its name.
    pub name: String,
    /// Its namespace.
    pub namespace: String,
    /// Its labels.
    pub labels: StringMap,
    /// Its owners.
    pub owner_references: Vec<OwnerReference>,
    /// The rest of it.
    pub data: Json,
}

/// What has to be done to a volume before a staged claim is deleted.
#[derive(Debug, Clone, PartialEq, Eq)]
pub struct CleanupPlan {
    /// The volume that would outlive the claim.
    pub reclaim_pv: Option<String>,
}

/// A look at a snapshot.
#[derive(Debug, Clone, PartialEq, Eq)]
pub struct VsObservation {
    /// Whether it is usable.
    pub ready: bool,
    /// The size that it is restored to.
    pub restore_size: Option<String>,
    /// What went wrong last.
    pub error: Option<String>,
    /// When it was made, in seconds since the Unix epoch.
    pub created_at: Option<i64>,
}

/// Whether a snapshot is worth waiting for.
#[derive(Debug, Clone, PartialEq, Eq)]
pub enum VsWait {
    /// It is usable.
    Ready {
        /// The size that it is restored to.
        restore_size: Option<String>,
    },
    /// Not yet.
    Waiting(String),
    /// The deadline has passed.
    Failed {
        /// Why, in one word.
        reason: &'static str,
        /// Why, and how to mend it.
        message: String,
    },
}

/// When the volumes of a storage class are bound.
#[derive(Debug, Clone, Copy, PartialEq, Eq, Structural)]
pub enum BindingMode {
    /// At once.
    Immediate,
    /// When the first pod wants them.
    WaitForFirstConsumer,
}

/// A look at a staged claim.
#[derive(Debug, Clone, PartialEq, Eq)]
pub struct StagedPvcObservation {
    /// Its phase.
    pub phase: Option<String>,
    /// When it was made, in seconds since the Unix epoch.
    pub created_at: Option<i64>,
}

/// Whether a staged claim is worth waiting for.
#[derive(Debug, Clone, PartialEq, Eq)]
pub enum PvcBindWait {
    /// It is bound.
    Bound,
    /// Not yet.
    Waiting(String),
    /// The deadline has passed, or its volume is gone.
    Failed {
        /// Why, in one word.
        reason: &'static str,
        /// Why, and how to mend it.
        message: String,
    },
}

/// Whether a backup is staged at all.
#[derive(Debug, Clone, PartialEq, Eq)]
pub enum StagingApplicability<'a> {
    /// It is not: the live source is mounted.
    NotApplicable,
    /// It would have to be, and this install may not read what that takes.
    ClusterScopeRequired,
    /// It is.
    Proceed {
        /// The source.
        source_name: &'a str,
    },
}

/// What a class decision says.
pub enum ClassDecisionView {
    /// This one.
    Use(Seq<char>),
    /// The one that was asked for does not exist.
    ExplicitNotFound(Seq<char>),
    /// None is for the driver.
    NoneForDriver(Seq<char>),
    /// Several are, and nothing tells which.
    Ambiguous(Seq<char>, Seq<Seq<char>>),
}

impl View for ClassDecision {
    type V = ClassDecisionView;

    open spec fn view(&self) -> ClassDecisionView {
        match self {
            ClassDecision::Use(n) => ClassDecisionView::Use(n@),
            ClassDecision::ExplicitNotFound(n) => ClassDecisionView::ExplicitNotFound(n@),
            ClassDecision::NoneForDriver(d) => ClassDecisionView::NoneForDriver(d@),
            ClassDecision::Ambiguous { driver, candidates } => ClassDecisionView::Ambiguous(
                driver@,
                texts(candidates@),
            ),
        }
    }
}

/// What a wait says.
pub enum WaitView {
    /// It is over; with the size that a snapshot is restored to.
    Ready(Option<Seq<char>>),
    /// Not yet.
    Waiting(Seq<char>),
    /// It is over without success.
    Failed(Seq<char>, Seq<char>),
}

impl View for VsWait {
    type V = WaitView;

    open spec fn view(&self) -> WaitView {
        match self {
            VsWait::Ready { restore_size } => WaitView::Ready(opt_text(*restore_size)),
            VsWait::Waiting(m) => WaitView::Waiting(m@),
            VsWait::Failed { reason, message } => WaitView::Failed(reason@, message@),
        }
    }
}

impl View for PvcBindWait {
    type V = WaitView;

    open spec fn view(&self) -> WaitView {
        match self {
            PvcBindWait::Bound => WaitView::Ready(None),
            PvcBindWait::Waiting(m) => WaitView::Waiting(m@),
            PvcBindWait::Failed { reason, message } => WaitView::Failed(reason@, message@),
        }
    }
}

/// What a reference to a source of data says.
pub open spec fn source_view(r: TypedLocalObjectReference) -> (
    Option<Seq<char>>,
    Seq<char>,
    Seq<char>,
) {
    (opt_text(r.api_group), r.kind@, r.name@)
}

/// What an optional list of strings says.
pub open spec fn opt_texts(o: Option<Vec<String>>) -> Option<Seq<Seq<char>>> {
    match o {
        Some(v) => Some(texts(v@)),
        None => None,
    }
}

/// The text of an access mode.
pub open spec fn mode_text(m: PvcAccessMode) -> Seq<char> {
    match m {
        PvcAccessMode::ReadWriteOnce => "ReadWriteOnce"@,
        PvcAccessMode::ReadOnlyMany => "ReadOnlyMany"@,
        PvcAccessMode::ReadWriteMany => "ReadWriteMany"@,
        PvcAccessMode::ReadWriteOncePod => "ReadWriteOncePod"@,
    }
}

/// The text of a copy method.
pub open spec fn method_text(m: CopyMethod) -> Seq<char> {
    match m {
        CopyMethod::Snapshot => "Snapshot"@,
        CopyMethod::Clone => "Clone"@,
        CopyMethod::Direct => "Direct"@,
    }
}

/// The classes of a driver, in order.
pub open spec fn of_driver(classes: Seq<ClassInfo>, driver: Seq<char>) -> Seq<ClassInfo> {
    classes.filter(|c: ClassInfo| c.driver@ == driver)
}

/// The defaults among some classes, in order.
pub open spec fn defaults_among(classes: Seq<ClassInfo>) -> Seq<ClassInfo> {
    classes.filter(|c: ClassInfo| c.is_default)
}

/// The names of some classes.
pub open spec fn class_names(classes: Seq<ClassInfo>) -> Seq<Seq<char>> {
    classes.map_values(|c: ClassInfo| c.name@)
}

/// Which class is used. A name that is asked for counts without the white space
/// around it, and not at all where nothing else is in it.
pub open spec fn chosen_class(
    classes: Seq<ClassInfo>,
    driver: Seq<char>,
    explicit: Option<Seq<char>>,
) -> ClassDecisionView {
    let asked = match explicit {
        Some(e) => trimmed(e),
        None => Seq::empty(),
    };
    if asked.len() > 0 {
        if class_names(classes).contains(asked) {
            ClassDecisionView::Use(asked)
        } else {
            ClassDecisionView::ExplicitNotFound(asked)
        }
    } else {
        let candidates = of_driver(classes, driver);
        let defaults = defaults_among(candidates);
        if candidates.len() == 0 {
            ClassDecisionView::NoneForDriver(driver)
        } else if candidates.len() == 1 {
            ClassDecisionView::Use(candidates[0].name@)
        } else if defaults.len() == 1 {
            ClassDecisionView::Use(defaults[0].name@)
        } else {
            ClassDecisionView::Ambiguous(driver, class_names(candidates))
        }
    }
}

/// How many bytes of a name that is too long are kept beside a hash and a suffix.
pub open spec fn kept_bytes(base: Seq<char>, suffix: Seq<char>) -> int {
    let room = MAX_NAME_LEN - 8 - encode_utf8(suffix).len() - 2;
    let all = encode_utf8(base).len() as int;
    if room < all {
        room
    } else {
        all
    }
}

/// Whether a base and a suffix fit in one name as they are.
pub open spec fn fits_uncut(base: Seq<char>, suffix: Seq<char>) -> bool {
    encode_utf8(base + "-"@ + suffix).len() <= MAX_NAME_LEN
}

/// Whether a name can be made of a base and a suffix: they fit, or the suffix
/// leaves room for a hash and the base can be cut between two characters.
pub open spec fn can_name(base: Seq<char>, suffix: Seq<char>) -> bool {
    fits_uncut(base, suffix) || (encode_utf8(suffix).len() <= MAX_NAME_LEN - 10
        && is_char_boundary(encode_utf8(base), kept_bytes(base, suffix)))
}

/// The name made of a base and a suffix. Where they do not fit, the base is cut
/// and gets its short hash.
pub open spec fn child_name(base: Seq<char>, suffix: Seq<char>) -> Seq<char> {
    if fits_uncut(base, suffix) {
        base + "-"@ + suffix
    } else {
        decode_utf8(encode_utf8(base).take(kept_bytes(base, suffix))) + "-"@ + short(base) + "-"@
            + suffix
    }
}

/// The labels of an object that the operator makes.
pub open spec fn made_labels(key: Seq<char>, value: Seq<char>) -> Map<Seq<char>, Seq<char>> {
    Map::<Seq<char>, Seq<char>>::empty().insert(MANAGED_BY_LABEL@, MANAGED_BY_VALUE@).insert(
        key,
        value,
    )
}

/// The number of a quantity and what it counts in.
pub open spec fn quantity_parts(q: Seq<char>) -> (Seq<char>, int) {
    let n = q.len() as int;
    if ends_in(q, "Ki"@) {
        (q.take(n - 2), 1024int)
    } else if ends_in(q, "Mi"@) {
        (q.take(n - 2), 1024int * 1024)
    } else if ends_in(q, "Gi"@) {
        (q.take(n - 2), 1024int * 1024 * 1024)
    } else if ends_in(q, "Ti"@) {
        (q.take(n - 2), 1024int * 1024 * 1024 * 1024)
    } else if ends_in(q, "Pi"@) {
        (q.take(n - 2), 1024int * 1024 * 1024 * 1024 * 1024)
    } else if ends_in(q, "k"@) {
        (q.take(n - 1), 1000int)
    } else if ends_in(q, "M"@) {
        (q.take(n - 1), 1000int * 1000)
    } else if ends_in(q, "G"@) {
        (q.take(n - 1), 1000int * 1000 * 1000)
    } else if ends_in(q, "T"@) {
        (q.take(n - 1), 1000int * 1000 * 1000 * 1000)
    } else {
        (q, 1int)
    }
}

/// The integer of a text, where 128 bits hold it.
pub open spec fn small_integer(s: Seq<char>) -> Option<int> {
    match integer_of(s) {
        Some(v) => if i128::MIN <= v <= i128::MAX {
            Some(v)
        } else {
            None
        },
        None => None,
    }
}

/// The bytes that a quantity stands for.
pub open spec fn quantity_bytes(q: Seq<char>) -> Option<int> {
    let parts = quantity_parts(trimmed(q));
    match small_integer(trimmed(parts.0)) {
        Some(v) => Some(v * parts.1),
        None => None,
    }
}

/// Whether 128 bits hold the bytes that a quantity stands for.
pub open spec fn quantity_fits(q: Option<Seq<char>>) -> bool {
    q matches Some(t) ==> (quantity_bytes(t) matches Some(v) ==> i128::MIN <= v <= i128::MAX)
}

/// The bytes that an optional quantity stands for; none where it is not known.
pub open spec fn bytes_or_zero(q: Option<Seq<char>>) -> int {
    match q {
        Some(t) => match quantity_bytes(t) {
            Some(v) => v,
            None => 0,
        },
        None => 0,
    }
}

/// The larger of two optional quantities, as it is written.
pub open spec fn larger_quantity(restore: Option<Seq<char>>, source: Option<Seq<char>>) -> Option<
    Seq<char>,
> {
    if bytes_or_zero(restore) >= bytes_or_zero(source) && restore is Some && bytes_or_zero(restore)
        > 0 {
        restore
    } else {
        source
    }
}

/// The text of a timeout as a policy writes it.
pub open spec fn go_duration(secs: nat) -> Seq<char> {
    if secs > 0 && secs % 3600 == 0 {
        decimal(secs / 3600) + "h"@
    } else if secs > 0 && secs % 60 == 0 {
        decimal(secs / 60) + "m"@
    } else {
        decimal(secs) + "s"@
    }
}

/// Whether a timeout is short enough for a deadline to be kept.
pub open spec fn keeps_deadline(t: Span) -> bool {
    t.secs < LONGEST_TIMEOUT_SECS || (t.secs == LONGEST_TIMEOUT_SECS && t.nanos
        <= LONGEST_TIMEOUT_NANOS)
}

/// The deadline of what was made at `created`. There is none without a timeout,
/// without that time, and with a timeout that is longer than anything.
pub open spec fn deadline(timeout: Option<Span>, created: Option<i64>) -> Option<Moment> {
    match (timeout, created) {
        (Some(t), Some(c)) => if keeps_deadline(t) {
            Some(Moment { secs: (c + t.secs) as i64, nanos: t.nanos })
        } else {
            None
        },
        _ => None,
    }
}

/// Whether the deadline, where there is one, has a calendar date.
pub open spec fn deadline_dated(timeout: Option<Span>, created: Option<i64>) -> bool {
    match (timeout, created) {
        (Some(t), Some(c)) => keeps_deadline(t) ==> on_calendar(c + t.secs, t.nanos as int)
            && t.nanos < NANOS_PER_SEC,
        _ => true,
    }
}

/// Whether the deadline has passed.
pub open spec fn expired(timeout: Option<Span>, created: Option<i64>, now: Moment) -> bool {
    deadline(timeout, created) matches Some(d) && now.reached(d)
}

/// What a waiting message says of the deadline.
pub open spec fn deadline_clause(d: Option<Moment>, pending: Seq<char>) -> Seq<char> {
    match d {
        Some(at) => "; staging fails at "@ + rfc3339_zulu_text(at.secs, at.nanos) + " if still "@
            + pending,
        None => "; waiting indefinitely (spec.staging.timeout: 0)"@,
    }
}

/// What a waiting message says of an error.
pub open spec fn error_clause(error: Option<Seq<char>>) -> Seq<char> {
    match error {
        Some(e) =>
        "; it reported a possibly-transient error (the snapshot-controller retries automatically): "@
            + e,
        None => ""@,
    }
}

/// The text of a timeout, where there is one.
pub open spec fn waited(timeout: Option<Span>) -> Seq<char> {
    match timeout {
        Some(t) => go_duration(t.secs as nat),
        None => ""@,
    }
}

/// Whether a snapshot is worth waiting for.
pub open spec fn vs_wait(
    ready: bool,
    restore_size: Option<Seq<char>>,
    error: Option<Seq<char>>,
    created: Option<i64>,
    ns: Seq<char>,
    name: Seq<char>,
    class: Seq<char>,
    timeout: Option<Span>,
    now: Moment,
) -> WaitView {
    if ready {
        WaitView::Ready(restore_size)
    } else if !expired(timeout, created, now) {
        WaitView::Waiting(
            "waiting for VolumeSnapshot `"@ + ns + "/"@ + name + "` to become readyToUse"@
                + error_clause(error) + deadline_clause(deadline(timeout, created), "not ready"@),
        )
    } else {
        match error {
            Some(e) => WaitView::Failed(
                REASON_VS_FAILED@,
                "VolumeSnapshot `"@ + ns + "/"@ + name + "` did not become readyToUse within "@
                    + waited(timeout)
                    + " (spec.staging.timeout; default 10m) and last reported: "@ + e
                    + ". Fix: check the VolumeSnapshotClass `"@ + class
                    + "` / CSI driver, or raise spec.staging.timeout if the backend is just slow. This Snapshot is terminal — the next scheduled run (or a new Snapshot) retries"@,
            ),
            None => WaitView::Failed(
                REASON_STAGING_TIMEOUT@,
                "VolumeSnapshot `"@ + ns + "/"@ + name + "` did not become readyToUse within "@
                    + waited(timeout)
                    + " (spec.staging.timeout; default 10m) and reported no error — the CSI driver or snapshot-controller is stuck or slow. Fix: check both, or raise spec.staging.timeout if the backend is just slow. This Snapshot is terminal — the next scheduled run (or a new Snapshot) retries"@,
            ),
        }
    }
}

/// How a message names a storage class.
pub open spec fn class_phrase(class: Option<Seq<char>>) -> Seq<char> {
    match class {
        Some(c) => "StorageClass `"@ + c + "`"@,
        None => "its StorageClass"@,
    }
}

/// The front of the message while a staged claim is not bound.
pub open spec fn binding_text(ns: Seq<char>, name: Seq<char>, class: Option<Seq<char>>) -> Seq<char> {
    "waiting for staged PVC `"@ + ns + "/"@ + name + "` ("@ + class_phrase(class)
        + ") to bind; the CSI restore/clone from the source is provisioning"@
}

/// Whether a staged claim is worth waiting for.
pub open spec fn bind_wait(
    phase: Option<Seq<char>>,
    created: Option<i64>,
    ns: Seq<char>,
    name: Seq<char>,
    class: Option<Seq<char>>,
    timeout: Option<Span>,
    now: Moment,
) -> WaitView {
    if phase == Some("Bound"@) {
        WaitView::Ready(None)
    } else if phase == Some("Lost"@) {
        WaitView::Failed(
            REASON_STAGED_PVC_LOST@,
            "staged PVC `"@ + ns + "/"@ + name
                + "` reports phase Lost — its bound PersistentVolume disappeared, so the stage can never become usable; check the CSI driver / PV lifecycle. This Snapshot is terminal — the next scheduled run (or a new Snapshot) retries"@,
        )
    } else if !expired(timeout, created, now) {
        WaitView::Waiting(
            binding_text(ns, name, class) + deadline_clause(
                deadline(timeout, created),
                "unbound"@,
            ),
        )
    } else {
        WaitView::Failed(
            REASON_STAGED_PVC_BIND_TIMEOUT@,
            "staged PVC `"@ + ns + "/"@ + name + "` did not reach Bound within "@ + waited(timeout)
                + " (spec.staging.timeout; default 10m) — the CSI restore/clone is still provisioning, or "@
                + class_phrase(class) + " cannot provision it. Fix: check `kubectl describe pvc -n "@
                + ns + " "@ + name
                + "` and the CSI provisioner logs, raise spec.staging.timeout if the copy is slow, or (CephFS) stage on a `backingSnapshot: \"true\"` class via spec.staging.storageClassName for a near-instant shallow mount. This Snapshot is terminal — the next scheduled run (or a new Snapshot) retries"@,
        )
    }
}

/// The message where volume snapshots are not installed.
pub fn stack_missing_message(provisioner: &str) -> (r: String)
    ensures
        r@
            == "CSI snapshot stack not installed (no VolumeSnapshotClass API), so copyMethod: Snapshot cannot run. Fix: install the external-snapshotter (snapshot-controller + CRDs) and a VolumeSnapshotClass for driver `"@
            + provisioner@ + "`, or set copyMethod: Direct. "@ + COPY_METHOD_DEFAULTED_NOTE@ + "."@,
{
    let mut m =
        "CSI snapshot stack not installed (no VolumeSnapshotClass API), so copyMethod: Snapshot cannot run. Fix: install the external-snapshotter (snapshot-controller + CRDs) and a VolumeSnapshotClass for driver `".to_owned();
    m.append(provisioner);
    m.append("`, or set copyMethod: Direct. ");
    m.append(COPY_METHOD_DEFAULTED_NOTE);
    m.append(".");
    m
}

/// The message where an install of one namespace cannot stage a group.
pub fn namespaced_install_cannot_group_stage_message() -> (r: String)
    ensures
        r@
            == "namespaced install (`installScope: namespaced`): its Role RBAC cannot read the cluster-scoped VolumeGroupSnapshotClass, VolumeSnapshotContent and PersistentVolume objects a `VolumeGroupSnapshot` capture needs to map group members to their PVCs. Fix: set `groupBy: None` with `copyMethod: Direct` (independent reads of the live volumes), or reinstall with installScope=cluster."@,
{
    "namespaced install (`installScope: namespaced`): its Role RBAC cannot read the cluster-scoped VolumeGroupSnapshotClass, VolumeSnapshotContent and PersistentVolume objects a `VolumeGroupSnapshot` capture needs to map group members to their PVCs. Fix: set `groupBy: None` with `copyMethod: Direct` (independent reads of the live volumes), or reinstall with installScope=cluster.".to_owned()
}

/// The message where an install of one namespace cannot stage.
pub fn namespaced_install_cannot_stage_message() -> (r: String)
    ensures
        r@
            == "namespaced install (installScope: namespaced): its Role RBAC cannot read the cluster-scoped StorageClass/VolumeSnapshotClass objects CSI staging requires. Fix: set copyMethod: Direct, or reinstall with installScope=cluster. "@
            + COPY_METHOD_DEFAULTED_NOTE@ + "."@,
{
    let mut m =
        "namespaced install (installScope: namespaced): its Role RBAC cannot read the cluster-scoped StorageClass/VolumeSnapshotClass objects CSI staging requires. Fix: set copyMethod: Direct, or reinstall with installScope=cluster. ".to_owned();
    m.append(COPY_METHOD_DEFAULTED_NOTE);
    m.append(".");
    m
}

/// The message for a source without a driver.
pub fn source_not_csi_message(ns: &str, source_name: &str) -> (r: String)
    ensures
        r@ == "source PVC `"@ + ns@ + "/"@ + source_name@
            + "` has no StorageClass / CSI provisioner, so it cannot be CSI-snapshotted; use a CSI StorageClass, or set copyMethod: Direct. "@
            + COPY_METHOD_DEFAULTED_NOTE@ + "."@,
{
    let mut m = "source PVC `".to_owned();
    m.append(ns);
    m.append("/");
    m.append(source_name);
    m.append(
        "` has no StorageClass / CSI provisioner, so it cannot be CSI-snapshotted; use a CSI StorageClass, or set copyMethod: Direct. ",
    );
    m.append(COPY_METHOD_DEFAULTED_NOTE);
    m.append(".");
    m
}

/// The text of a copy method.
pub fn copy_method_str(m: CopyMethod) -> (r: &'static str)
    ensures
        r@ == method_text(m),
{
    match m {
        CopyMethod::Snapshot => "Snapshot",
        CopyMethod::Clone => "Clone",
        CopyMethod::Direct => "Direct",
    }
}

/// The message for a source that does not exist.
pub fn source_pvc_not_found_message(ns: &str, source_name: &str, copy_method: CopyMethod) -> (r:
    String)
    ensures
        r@ == "source PVC `"@ + ns@ + "/"@ + source_name@ + "` was not found; copyMethod "@
            + method_text(copy_method)
            + " needs an existing CSI-provisioned PVC to snapshot — create the PVC, or set copyMethod: Direct. "@
            + COPY_METHOD_DEFAULTED_NOTE@ + "."@,
{
    let mut m = "source PVC `".to_owned();
    m.append(ns);
    m.append("/");
    m.append(source_name);
    m.append("` was not found; copyMethod ");
    m.append(copy_method_str(copy_method));
    m.append(
        " needs an existing CSI-provisioned PVC to snapshot — create the PVC, or set copyMethod: Direct. ",
    );
    m.append(COPY_METHOD_DEFAULTED_NOTE);
    m.append(".");
    m
}

/// The message for a class that was asked for and does not exist.
pub fn explicit_class_not_found_message(name: &str, provisioner: &str) -> (r: String)
    ensures
        r@ == "volumeSnapshotClassName `"@ + name@ + "` does not exist; create it (driver `"@
            + provisioner@ + "`), pick an existing class, or set copyMethod: Direct. "@
            + COPY_METHOD_DEFAULTED_NOTE@ + "."@,
{
    let mut m = "volumeSnapshotClassName `".to_owned();
    m.append(name);
    m.append("` does not exist; create it (driver `");
    m.append(provisioner);
    m.append("`), pick an existing class, or set copyMethod: Direct. ");
    m.append(COPY_METHOD_DEFAULTED_NOTE);
    m.append(".");
    m
}

/// The message for a driver without a class.
pub fn no_class_for_driver_message(driver: &str) -> (r: String)
    ensures
        r@ == "no VolumeSnapshotClass has driver `"@ + driver@
            + "` (the source PVC's provisioner); create a VolumeSnapshotClass for it (optionally annotate it "@
            + DEFAULT_CLASS_ANNOTATION@
            + "=true), set volumeSnapshotClassName explicitly, or set copyMethod: Direct. "@
            + COPY_METHOD_DEFAULTED_NOTE@ + "."@,
{
    let mut m = "no VolumeSnapshotClass has driver `".to_owned();
    m.append(driver);
    m.append(
        "` (the source PVC's provisioner); create a VolumeSnapshotClass for it (optionally annotate it ",
    );
    m.append(DEFAULT_CLASS_ANNOTATION);
    m.append("=true), set volumeSnapshotClassName explicitly, or set copyMethod: Direct. ");
    m.append(COPY_METHOD_DEFAULTED_NOTE);
    m.append(".");
    m
}

/// The message for a driver with several classes.
pub fn ambiguous_class_message(driver: &str, candidates: &Vec<String>) -> (r: String)
    ensures
        r@ == "multiple VolumeSnapshotClasses match driver `"@ + driver@ + "` ("@ + joined(
            texts(candidates@),
            ", "@,
        )
            + ") and none is the unique default; set volumeSnapshotClassName explicitly to choose one"@,
{
    let mut m = "multiple VolumeSnapshotClasses match driver `".to_owned();
    m.append(driver);
    m.append("` (");
    let names = join(candidates, ", ");
    m.append(names.as_str());
    m.append(
        ") and none is the unique default; set volumeSnapshotClassName explicitly to choose one",
    );
    m
}

/// Which of the listed classes is used for a driver. One that is asked for by
/// name wins, if it exists; then the only one of the driver; then its only default.
/// A name that is empty, or white space, is not asked for.
pub fn decide_class(classes: &[ClassInfo], provisioner: &str, explicit: Option<&str>) -> (r:
    ClassDecision)
    ensures
        r@ == chosen_class(classes@, provisioner@, opt_str(explicit)),
{
    let asked: String = match explicit {
        Some(e) => trim(e),
        None => String::new(),
    };
    if !asked.as_str().is_empty() {
        let mut i: usize = 0;
        while i < classes.len()
            invariant
                i <= classes@.len(),
                asked@.len() > 0,
                chosen_class(classes@, provisioner@, opt_str(explicit)) == if class_names(
                    classes@,
                ).contains(asked@) {
                    ClassDecisionView::Use(asked@)
                } else {
                    ClassDecisionView::ExplicitNotFound(asked@)
                },
                forall|j: int| 0 <= j < i ==> (#[trigger] classes@[j]).name@ != asked@,
            decreases classes@.len() - i,
        {
            if same(classes[i].name.as_str(), asked.as_str()) {
                assert(class_names(classes@)[i as int] == asked@);
                return ClassDecision::Use(asked);
            }
            i += 1;
        }
        proof {
            if class_names(classes@).contains(asked@) {
                let j = choose|j: int|
                    0 <= j < class_names(classes@).len() && class_names(classes@)[j] == asked@;
                assert(classes@[j].name@ == asked@);
            }
        }
        return ClassDecision::ExplicitNotFound(asked);
    }
    let mut names: Vec<String> = Vec::new();
    let mut defaults: Vec<String> = Vec::new();
    let mut i: usize = 0;
    let ghost is_candidate = |c: ClassInfo| c.driver@ == provisioner@;
    let ghost is_default = |c: ClassInfo| c.is_default;
    proof {
        reveal(Seq::filter);
        assert(classes@.take(0) =~= Seq::empty());
        assert(texts(names@) =~= class_names(classes@.take(0).filter(is_candidate)));
        assert(texts(defaults@) =~= class_names(
            classes@.take(0).filter(is_candidate).filter(is_default),
        ));
    }
    while i < classes.len()
        invariant
            i <= classes@.len(),
            is_candidate == (|c: ClassInfo| c.driver@ == provisioner@),
            is_default == (|c: ClassInfo| c.is_default),
            texts(names@) == class_names(classes@.take(i as int).filter(is_candidate)),
            texts(defaults@) == class_names(
                classes@.take(i as int).filter(is_candidate).filter(is_default),
            ),
        decreases classes@.len() - i,
    {
        let c = &classes[i];
        let ghost before = classes@.take(i as int).filter(is_candidate);
        let ghost after = classes@.take(i + 1).filter(is_candidate);
        proof {
            reveal(Seq::filter);
            assert(classes@.take(i + 1).drop_last() =~= classes@.take(i as int));
            assert(classes@.take(i + 1).last() == *c);
        }
        if same(c.driver.as_str(), provisioner) {
            let ghost old_names = names@;
            let ghost old_defaults = defaults@;
            names.push(c.name.clone());
            proof {
                assert(after == before.push(*c));
                assert(texts(names@) =~= texts(old_names).push(c.name@));
                assert(class_names(after) =~= class_names(before).push(c.name@));
                assert(after.drop_last() =~= before);
                assert(after.last() == *c);
            }
            if c.is_default {
                defaults.push(c.name.clone());
                proof {
                    assert(after.filter(is_default) == before.filter(is_default).push(*c));
                    assert(texts(defaults@) =~= texts(old_defaults).push(c.name@));
                    assert(class_names(after.filter(is_default)) =~= class_names(
                        before.filter(is_default),
                    ).push(c.name@));
                }
            } else {
                assert(after.filter(is_default) == before.filter(is_default));
            }
        } else {
            assert(after == before);
        }
        i += 1;
    }
    proof {
        assert(classes@.take(i as int) =~= classes@);
        assert(of_driver(classes@, provisioner@) == classes@.filter(is_candidate));
        assert(defaults_among(of_driver(classes@, provisioner@)) == classes@.filter(
            is_candidate,
        ).filter(is_default));
        assert(texts(names@).len() == names@.len());
        assert(texts(defaults@).len() == defaults@.len());
        if names@.len() > 0 {
            assert(texts(names@)[0] == names@[0]@);
        }
        if defaults@.len() > 0 {
            assert(texts(defaults@)[0] == defaults@[0]@);
        }
    }
    if names.len() == 0 {
        ClassDecision::NoneForDriver(provisioner.to_owned())
    } else if names.len() == 1 {
        ClassDecision::Use(names[0].clone())
    } else if defaults.len() == 1 {
        ClassDecision::Use(defaults[0].clone())
    } else {
        ClassDecision::Ambiguous { driver: provisioner.to_owned(), candidates: names }
    }
}

/// Whether a name can be made of a base and a suffix.
pub fn is_nameable(base: &str, suffix: &str) -> (r: bool)
    ensures
        r == can_name(base@, suffix@),
{
    let mut full = base.to_owned();
    full.append("-");
    full.append(suffix);
    if byte_len(full.as_str()) <= MAX_NAME_LEN {
        return true;
    }
    let taken: usize = byte_len(suffix);
    if taken > MAX_NAME_LEN - 10 {
        return false;
    }
    let room: usize = MAX_NAME_LEN - 8 - taken - 2;
    let all: usize = byte_len(base);
    let keep: usize = if room < all {
        room
    } else {
        all
    };
    base.is_char_boundary(keep)
}

/// The name of an object that belongs to `base`: `<base>-<suffix>`, with the
/// base cut and hashed where that is too long. The same base always gives the same
/// name, so that a run that is repeated meets what it has made.
pub fn staged_child_name(base: &str, suffix: &str) -> (r: String)
    requires
        can_name(base@, suffix@),
    ensures
        r@ == child_name(base@, suffix@),
{
    let mut full = base.to_owned();
    full.append("-");
    full.append(suffix);
    if byte_len(full.as_str()) <= MAX_NAME_LEN {
        return full;
    }
    let tag = short_hash(base);
    let taken: usize = byte_len(suffix);
    let room: usize = MAX_NAME_LEN - 8 - taken - 2;
    let all: usize = byte_len(base);
    let keep: usize = if room < all {
        room
    } else {
        all
    };
    let front = base.split_at(keep).0;
    proof {
        assert(encode_utf8(base@).subrange(0, keep as int) =~= encode_utf8(base@).take(
            keep as int,
        ));
        encode_utf8_decode_utf8(front@);
    }
    let mut out = front.to_owned();
    out.append("-");
    out.append(tag.as_str());
    out.append("-");
    out.append(suffix);
    out
}

/// The name of the snapshot of a `Snapshot`.
pub fn volume_snapshot_name(snapshot_cr: &str) -> (r: String)
    requires
        can_name(snapshot_cr@, "snap"@),
    ensures
        r@ == child_name(snapshot_cr@, "snap"@),
{
    staged_child_name(snapshot_cr, "snap")
}

/// The name of the staged claim of a `Snapshot`.
pub fn staged_pvc_name(snapshot_cr: &str) -> (r: String)
    requires
        can_name(snapshot_cr@, "src"@),
    ensures
        r@ == child_name(snapshot_cr@, "src"@),
{
    staged_child_name(snapshot_cr, "src")
}

/// The labels of an object that the operator makes.
pub fn child_labels(key: &str, value: &str) -> (r: StringMap)
    ensures
        r@ == made_labels(key@, value@),
{
    let mut labels = StringMap::new();
    labels.insert(MANAGED_BY_LABEL, MANAGED_BY_VALUE);
    labels.insert(key, value);
    labels
}

/// What a snapshot of a claim is asked for.
pub open spec fn snapshot_data(source_claim: Seq<char>, class: Option<Seq<char>>) -> Tree {
    let none = Map::<Seq<char>, Tree>::empty();
    let source = Tree::Object(
        none.insert("persistentVolumeClaimName"@, Tree::Text(source_claim)),
    );
    Tree::Object(
        none.insert(
            "spec"@,
            Tree::Object(
                match class {
                    Some(c) => none.insert("source"@, source).insert(
                        "volumeSnapshotClassName"@,
                        Tree::Text(c),
                    ),
                    None => none.insert("source"@, source),
                },
            ),
        ),
    )
}

/// The snapshot of a claim. It belongs to the `Snapshot` and goes with it.
pub fn build_volume_snapshot(
    name: &str,
    ns: &str,
    source_claim: &str,
    class: Option<&str>,
    owner: OwnerReference,
) -> (r: DynamicObject)
    ensures
        r.api_version@ == SNAPSHOT_VERSION@,
        r.kind@ == "VolumeSnapshot"@,
        r.name@ == name@,
        r.namespace@ == ns@,
        r.labels@ == made_labels(STAGED_COMPONENT_LABEL@, "staged-source-snapshot"@),
        r.owner_references@ == seq![owner],
        tree(r.data) == snapshot_data(source_claim@, opt_str(class)),
{
    let source = entry("persistentVolumeClaimName", Json::Text(source_claim.to_owned()));
    let spec = match class {
        Some(c) => entries("source", source, "volumeSnapshotClassName", Json::Text(c.to_owned())),
        None => entry("source", source),
    };
    let mut owners: Vec<OwnerReference> = Vec::new();
    owners.push(owner);
    assert(owners@ =~= seq![owner]);
    DynamicObject {
        api_version: SNAPSHOT_VERSION.to_owned(),
        kind: "VolumeSnapshot".to_owned(),
        name: name.to_owned(),
        namespace: ns.to_owned(),
        labels: child_labels(STAGED_COMPONENT_LABEL, "staged-source-snapshot"),
        owner_references: owners,
        data: entry("spec", spec),
    }
}

/// What a staged claim is filled from.
pub open spec fn filled_from(
    copy_method: CopyMethod,
    source_pvc: Seq<char>,
    volume_snapshot: Seq<char>,
) -> (Option<Seq<char>>, Seq<char>, Seq<char>) {
    if copy_method == CopyMethod::Clone {
        (None, "PersistentVolumeClaim"@, source_pvc)
    } else {
        (Some(SNAPSHOT_GROUP@), "VolumeSnapshot"@, volume_snapshot)
    }
}

/// What a staged claim is filled from: the source itself for a clone, and the
/// snapshot otherwise.
pub fn data_source_for(copy_method: CopyMethod, source_pvc: &str, volume_snapshot: &str) -> (r:
    TypedLocalObjectReference)
    ensures
        source_view(r) == filled_from(copy_method, source_pvc@, volume_snapshot@),
{
    match copy_method {
        CopyMethod::Clone => TypedLocalObjectReference {
            api_group: None,
            kind: "PersistentVolumeClaim".to_owned(),
            name: source_pvc.to_owned(),
        },
        _ => TypedLocalObjectReference {
            api_group: Some(SNAPSHOT_GROUP.to_owned()),
            kind: "VolumeSnapshot".to_owned(),
            name: volume_snapshot.to_owned(),
        },
    }
}

/// The number of a quantity and what it counts in.
fn split_quantity<'a>(q: &'a str) -> (r: (&'a str, i128))
    ensures
        r.0@ == quantity_parts(q@).0,
        r.1 == quantity_parts(q@).1,
        1 <= r.1 <= 1_125_899_906_842_624,
{
    proof {
        reveal_strlit("Ki");
        reveal_strlit("Mi");
        reveal_strlit("Gi");
        reveal_strlit("Ti");
        reveal_strlit("Pi");
        reveal_strlit("k");
        reveal_strlit("M");
        reveal_strlit("G");
        reveal_strlit("T");
    }
    if let Some(p) = strip_suffix(q, "Ki") {
        (p, 1_024)
    } else if let Some(p) = strip_suffix(q, "Mi") {
        (p, 1_048_576)
    } else if let Some(p) = strip_suffix(q, "Gi") {
        (p, 1_073_741_824)
    } else if let Some(p) = strip_suffix(q, "Ti") {
        (p, 1_099_511_627_776)
    } else if let Some(p) = strip_suffix(q, "Pi") {
        (p, 1_125_899_906_842_624)
    } else if let Some(p) = strip_suffix(q, "k") {
        (p, 1_000)
    } else if let Some(p) = strip_suffix(q, "M") {
        (p, 1_000_000)
    } else if let Some(p) = strip_suffix(q, "G") {
        (p, 1_000_000_000)
    } else if let Some(p) = strip_suffix(q, "T") {
        (p, 1_000_000_000_000)
    } else {
        (q, 1)
    }
}

/// The number of a quantity and what it counts in, where it can be read.
fn read_quantity(q: &str) -> (r: Option<(i128, i128)>)
    ensures
        match r {
            Some((n, unit)) => quantity_bytes(q@) == Some(n * unit) && 1 <= unit
                <= 1_125_899_906_842_624,
            None => quantity_bytes(q@) is None,
        },
{
    let whole = trim(q);
    let (number, unit) = split_quantity(whole.as_str());
    let bare = trim(number);
    match parse_i128(bare.as_str()) {
        Some(n) => Some((n, unit)),
        None => None,
    }
}

/// Whether 128 bits hold the bytes that a quantity stands for.
pub fn is_quantity_small(q: Option<&str>) -> (r: bool)
    ensures
        r == quantity_fits(opt_str(q)),
{
    match q {
        None => true,
        Some(t) => match read_quantity(t) {
            None => true,
            Some((n, unit)) => n.checked_mul(unit).is_some(),
        },
    }
}

/// The bytes that a quantity like `10Gi` stands for, where it can be read.
pub fn quantity_to_bytes(q: &str) -> (r: Option<i128>)
    requires
        quantity_fits(Some(q@)),
    ensures
        match quantity_bytes(q@) {
            Some(v) => r == Some(v as i128),
            None => r is None,
        },
{
    match read_quantity(q) {
        None => None,
        Some((n, unit)) => {
            assert(i128::MIN <= n * unit <= i128::MAX);
            Some(n * unit)
        },
    }
}

/// The storage that a staged claim asks for: the larger of what its snapshot is
/// restored to and what the source asks for, as it is written there.
pub fn staged_pvc_size(restore_size: Option<&str>, source_request: Option<&str>) -> (r: Option<
    String,
>)
    requires
        quantity_fits(opt_str(restore_size)),
        quantity_fits(opt_str(source_request)),
    ensures
        opt_text(r) == larger_quantity(opt_str(restore_size), opt_str(source_request)),
{
    let from_snapshot: i128 = match restore_size {
        Some(t) => match quantity_to_bytes(t) {
            Some(n) => n,
            None => 0,
        },
        None => 0,
    };
    let from_source: i128 = match source_request {
        Some(t) => match quantity_to_bytes(t) {
            Some(n) => n,
            None => 0,
        },
        None => 0,
    };
    match restore_size {
        Some(t) => {
            if from_snapshot >= from_source && from_snapshot > 0 {
                return Some(t.to_owned());
            }
        },
        None => {},
    }
    match source_request {
        Some(t) => Some(t.to_owned()),
        None => None,
    }
}

impl PvcAccessMode {
    /// The text of the mode.
    pub fn mode_str(self) -> (r: &'static str)
        ensures
            r@ == mode_text(self),
    {
        match self {
            PvcAccessMode::ReadWriteOnce => "ReadWriteOnce",
            PvcAccessMode::ReadOnlyMany => "ReadOnlyMany",
            PvcAccessMode::ReadWriteMany => "ReadWriteMany",
            PvcAccessMode::ReadWriteOncePod => "ReadWriteOncePod",
        }
    }
}

/// What is given by reference.
pub open spec fn given(staging: Option<&StagingSpec>) -> Option<StagingSpec> {
    match staging {
        Some(s) => Some(*s),
        None => None,
    }
}

/// The access modes of a staged claim: those asked for, or the source's.
pub open spec fn staged_modes(staging: Option<StagingSpec>, source: Option<PvcSpec>) -> Option<
    Seq<Seq<char>>,
> {
    if staging matches Some(s) && s.access_modes@.len() > 0 {
        Some(staging->0.access_modes@.map_values(|m: PvcAccessMode| mode_text(m)))
    } else {
        match source {
            Some(s) => opt_texts(s.access_modes),
            None => None,
        }
    }
}

/// The storage class of a staged claim: the one asked for, or the source's.
pub open spec fn staged_class(staging: Option<StagingSpec>, source: Option<PvcSpec>) -> Option<
    Seq<char>,
> {
    if staging matches Some(s) && s.storage_class_name is Some {
        opt_text(staging->0.storage_class_name)
    } else {
        match source {
            Some(s) => opt_text(s.storage_class_name),
            None => None,
        }
    }
}

/// The storage that a claim asks for.
pub open spec fn requested_storage(spec: Option<PvcSpec>) -> Option<Seq<char>> {
    match spec {
        Some(s) => opt_text(s.storage_request),
        None => None,
    }
}

fn copy_opt(o: &Option<String>) -> (r: Option<String>)
    ensures
        opt_text(r) == opt_text(*o),
{
    match o {
        Some(s) => Some(s.clone()),
        None => None,
    }
}

fn borrow_opt(o: &Option<String>) -> (r: Option<&str>)
    ensures
        opt_str(r) == opt_text(*o),
{
    match o {
        Some(s) => Some(s.as_str()),
        None => None,
    }
}

fn copy_texts(v: &Vec<String>) -> (r: Vec<String>)
    ensures
        texts(r@) == texts(v@),
{
    let mut out: Vec<String> = Vec::new();
    let mut i: usize = 0;
    while i < v.len()
        invariant
            i <= v@.len(),
            out@.len() == i,
            forall|j: int| 0 <= j < i ==> (#[trigger] out@[j])@ == v@[j]@,
        decreases v@.len() - i,
    {
        out.push(v[i].clone());
        i += 1;
    }
    assert(texts(out@) =~= texts(v@));
    out
}

fn mode_texts(v: &Vec<PvcAccessMode>) -> (r: Vec<String>)
    ensures
        texts(r@) == v@.map_values(|m: PvcAccessMode| mode_text(m)),
{
    let mut out: Vec<String> = Vec::new();
    let mut i: usize = 0;
    while i < v.len()
        invariant
            i <= v@.len(),
            out@.len() == i,
            forall|j: int| 0 <= j < i ==> (#[trigger] out@[j])@ == mode_text(v@[j]),
        decreases v@.len() - i,
    {
        out.push(v[i].mode_str().to_owned());
        i += 1;
    }
    assert(texts(out@) =~= v@.map_values(|m: PvcAccessMode| mode_text(m)));
    out
}

/// The staged claim. Its access modes and storage class are those that the policy
/// asks for, or else the source's; the rest is the source's.
pub fn build_staged_pvc(
    name: &str,
    ns: &str,
    source_pvc: &PersistentVolumeClaim,
    data_source: TypedLocalObjectReference,
    restore_size: Option<&str>,
    staging: Option<&StagingSpec>,
    owner: OwnerReference,
) -> (r: PersistentVolumeClaim)
    requires
        quantity_fits(opt_str(restore_size)),
        sized(*source_pvc),
    ensures
        opt_text(r.name) == Some(name@),
        opt_text(r.namespace) == Some(ns@),
        r.labels is Some,
        opt_map(r.labels) == made_labels(STAGED_COMPONENT_LABEL@, "staged-source"@),
        r.owner_references@ == seq![owner],
        r.created_at is None,
        r.phase is None,
        r.spec matches Some(s) && {
            &&& opt_texts(s.access_modes) == staged_modes(given(staging), source_pvc.spec)
            &&& opt_text(s.storage_class_name) == staged_class(given(staging), source_pvc.spec)
            &&& opt_text(s.volume_mode) == match source_pvc.spec {
                Some(src) => opt_text(src.volume_mode),
                None => None,
            }
            &&& s.volume_name is None
            &&& opt_text(s.storage_request) == larger_quantity(
                opt_str(restore_size),
                requested_storage(source_pvc.spec),
            )
            &&& s.data_source == Some(data_source)
        },
{
    let request: Option<&str> = match &source_pvc.spec {
        Some(s) => borrow_opt(&s.storage_request),
        None => None,
    };
    let size = staged_pvc_size(restore_size, request);
    let asked_modes: Option<Vec<String>> = match staging {
        Some(s) => if s.access_modes.len() > 0 {
            Some(mode_texts(&s.access_modes))
        } else {
            None
        },
        None => None,
    };
    let access_modes: Option<Vec<String>> = match asked_modes {
        Some(m) => Some(m),
        None => match &source_pvc.spec {
            Some(s) => match &s.access_modes {
                Some(m) => Some(copy_texts(m)),
                None => None,
            },
            None => None,
        },
    };
    let asked_class: Option<String> = match staging {
        Some(s) => copy_opt(&s.storage_class_name),
        None => None,
    };
    let storage_class_name: Option<String> = match asked_class {
        Some(c) => Some(c),
        None => match &source_pvc.spec {
            Some(s) => copy_opt(&s.storage_class_name),
            None => None,
        },
    };
    let volume_mode: Option<String> = match &source_pvc.spec {
        Some(s) => copy_opt(&s.volume_mode),
        None => None,
    };
    let mut owners: Vec<OwnerReference> = Vec::new();
    owners.push(owner);
    assert(owners@ =~= seq![owner]);
    PersistentVolumeClaim {
        name: Some(name.to_owned()),
        namespace: Some(ns.to_owned()),
        labels: Some(child_labels(STAGED_COMPONENT_LABEL, "staged-source")),
        owner_references: owners,
        created_at: None,
        spec: Some(
            PvcSpec {
                access_modes,
                storage_class_name,
                volume_mode,
                volume_name: None,
                storage_request: size,
                data_source: Some(data_source),
            },
        ),
        phase: None,
    }
}

/// What is wrong with the storage class that a policy asks for.
pub open spec fn preflight_fault(
    class: Seq<char>,
    class_driver: Option<Seq<char>>,
    source_driver: Option<Seq<char>>,
) -> Option<(Seq<char>, Seq<char>)> {
    match class_driver {
        None => Some(
            (
                REASON_STAGED_CLASS_NOT_FOUND@,
                "spec.staging.storageClassName `"@ + class
                    + "` does not exist. Fix: create it, point the override at an existing StorageClass of the source's CSI driver, or remove the override to stage on the source PVC's own class. This Snapshot is terminal — the next scheduled run (or a new Snapshot) retries"@,
            ),
        ),
        Some(op) => match source_driver {
            Some(sp) => if op != sp {
                Some(
                    (
                        REASON_STAGED_CLASS_MISMATCH@,
                        "spec.staging.storageClassName `"@ + class + "` is provisioned by `"@ + op
                            + "`, but the source PVC's CSI driver is `"@ + sp
                            + "` — a snapshot restore/clone can only be provisioned by the source's own driver, so the staged PVC would never bind. Fix: point the override at a class of driver `"@
                            + sp
                            + "` (e.g. a CephFS `backingSnapshot: \"true\"` class), or remove the override. This Snapshot is terminal — the next scheduled run (or a new Snapshot) retries"@,
                    ),
                )
            } else {
                None
            },
            None => None,
        },
    }
}

/// What is wrong with the storage class that a policy asks for: it does not
/// exist, or its driver is not the source's. Where the source's driver is not known
/// nothing is.
pub fn staged_class_preflight(
    override_class: &str,
    override_provisioner: Option<&str>,
    source_provisioner: Option<&str>,
) -> (r: Option<(&'static str, String)>)
    ensures
        match (
            r,
            preflight_fault(
                override_class@,
                opt_str(override_provisioner),
                opt_str(source_provisioner),
            ),
        ) {
            (Some(got), Some(want)) => got.0@ == want.0 && got.1@ == want.1,
            (None, None) => true,
            _ => false,
        },
{
    let op = match override_provisioner {
        Some(op) => op,
        None => {
            let mut m = "spec.staging.storageClassName `".to_owned();
            m.append(override_class);
            m.append(
                "` does not exist. Fix: create it, point the override at an existing StorageClass of the source's CSI driver, or remove the override to stage on the source PVC's own class. This Snapshot is terminal — the next scheduled run (or a new Snapshot) retries",
            );
            return Some((REASON_STAGED_CLASS_NOT_FOUND, m));
        },
    };
    match source_provisioner {
        Some(sp) => {
            if same(op, sp) {
                return None;
            }
            let mut m = "spec.staging.storageClassName `".to_owned();
            m.append(override_class);
            m.append("` is provisioned by `");
            m.append(op);
            m.append("`, but the source PVC's CSI driver is `");
            m.append(sp);
            m.append(
                "` — a snapshot restore/clone can only be provisioned by the source's own driver, so the staged PVC would never bind. Fix: point the override at a class of driver `",
            );
            m.append(sp);
            m.append(
                "` (e.g. a CephFS `backingSnapshot: \"true\"` class), or remove the override. This Snapshot is terminal — the next scheduled run (or a new Snapshot) retries",
            );
            Some((REASON_STAGED_CLASS_MISMATCH, m))
        },
        None => None,
    }
}

/// The volume that would outlive a staged claim: the one that it is bound to.
pub open spec fn bound_volume(spec: Option<PvcSpec>) -> Option<Seq<char>> {
    match spec {
        Some(s) => match opt_text(s.volume_name) {
            Some(v) => if v.len() > 0 {
                Some(v)
            } else {
                None
            },
            None => None,
        },
        None => None,
    }
}

/// What has to be done to a volume before a staged claim is deleted.
pub fn cleanup_plan(staged_pvc: &PersistentVolumeClaim) -> (r: CleanupPlan)
    ensures
        opt_text(r.reclaim_pv) == bound_volume(staged_pvc.spec),
{
    let reclaim_pv: Option<String> = match &staged_pvc.spec {
        Some(s) => match &s.volume_name {
            Some(v) => if v.as_str().is_empty() {
                None
            } else {
                Some(v.clone())
            },
            None => None,
        },
        None => None,
    };
    CleanupPlan { reclaim_pv }
}

/// A class of snapshots, from its name, its driver and its annotation.
pub fn class_info(name: &str, driver: Option<&str>, default_annotation: Option<&str>) -> (r:
    ClassInfo)
    ensures
        r.name@ == name@,
        r.driver@ == match opt_str(driver) {
            Some(d) => d,
            None => ""@,
        },
        r.is_default == (opt_str(default_annotation) == Some("true"@)),
{
    ClassInfo {
        name: name.to_owned(),
        driver: match driver {
            Some(d) => d.to_owned(),
            None => "".to_owned(),
        },
        is_default: same_opt(default_annotation, Some("true")),
    }
}

/// The classes of snapshots from what came of listing them: none where the API
/// server does not serve them, which is another thing than that there are none.
pub fn listed_classes<T, E>(listing: Result<T, (Option<u16>, E)>) -> (r: Result<Option<T>, E>)
    ensures
        match listing {
            Ok(list) => r == Ok::<Option<T>, E>(Some(list)),
            Err((code, e)) => if code == Some(404u16) {
                r == Ok::<Option<T>, E>(None)
            } else {
                r == Err::<Option<T>, E>(e)
            },
        },
{
    match listing {
        Ok(list) => Ok(Some(list)),
        Err((Some(404), _)) => Ok(None),
        Err((_, e)) => Err(e),
    }
}

/// The storage class of a source; none where it has none, or an empty one.
pub open spec fn class_of(source: PersistentVolumeClaim) -> Option<Seq<char>> {
    match source.spec {
        Some(s) => match opt_text(s.storage_class_name) {
            Some(c) => if c.len() > 0 {
                Some(c)
            } else {
                None
            },
            None => None,
        },
        None => None,
    }
}

/// Whether 128 bits hold the bytes that a source asks for.
pub open spec fn sized(source: PersistentVolumeClaim) -> bool {
    quantity_fits(requested_storage(source.spec))
}

/// Whether 128 bits hold the bytes that a source asks for.
pub fn is_sized(source: &PersistentVolumeClaim) -> (r: bool)
    ensures
        r == sized(*source),
{
    match &source.spec {
        Some(s) => is_quantity_small(borrow_opt(&s.storage_request)),
        None => true,
    }
}

/// The storage class to look up for the driver of a source; none where it has none.
pub fn source_class(source_pvc: &PersistentVolumeClaim) -> (r: Option<&str>)
    ensures
        opt_str(r) == class_of(*source_pvc),
{
    match &source_pvc.spec {
        Some(s) => match &s.storage_class_name {
            Some(c) => if c.as_str().is_empty() {
                None
            } else {
                Some(c.as_str())
            },
            None => None,
        },
        None => None,
    }
}

/// The size that a snapshot's status gives, as text.
pub open spec fn restore_size_of(status: Option<Tree>) -> Option<Seq<char>> {
    let size = child_of(status, "restoreSize"@);
    match text_of(size) {
        Some(s) => Some(s),
        None => match integer_in(size) {
            Some(n) => Some(signed_decimal(n)),
            None => None,
        },
    }
}

/// A look at a snapshot, from what the cluster holds of it.
pub fn vs_observation(data: &Json, created_at: Option<i64>) -> (r: VsObservation)
    ensures
        ({
            let status = child(tree(*data), "status"@);
            &&& r.ready == is_true(child_of(status, "readyToUse"@))
            &&& opt_text(r.restore_size) == restore_size_of(status)
            &&& opt_text(r.error) == text_of(child_of(child_of(status, "error"@), "message"@))
            &&& r.created_at == created_at
        }),
{
    let status = get(Some(data), "status");
    let size = get(status, "restoreSize");
    let restore_size: Option<String> = match get_text(size) {
        Some(s) => Some(s.clone()),
        None => match get_integer(size) {
            Some(n) => Some(signed_decimal_text(n)),
            None => None,
        },
    };
    let error: Option<String> = match get_text(get(get(status, "error"), "message")) {
        Some(s) => Some(s.clone()),
        None => None,
    };
    VsObservation {
        ready: get_true(get(status, "readyToUse")),
        restore_size,
        error,
        created_at,
    }
}

/// The text of a timeout as a policy writes it.
pub fn fmt_go_duration(d: Span) -> (r: String)
    ensures
        r@ == go_duration(d.secs as nat),
{
    let secs: u64 = d.secs;
    if secs > 0 && secs % 3600 == 0 {
        let mut out = decimal_text(secs / 3600);
        out.append("h");
        out
    } else if secs > 0 && secs % 60 == 0 {
        let mut out = decimal_text(secs / 60);
        out.append("m");
        out
    } else {
        let mut out = decimal_text(secs);
        out.append("s");
        out
    }
}

/// Whether the deadline, where there is one, has a calendar date.
pub fn is_deadline_dated(timeout: Option<Span>, created: Option<i64>) -> (r: bool)
    ensures
        r == deadline_dated(timeout, created),
{
    match (timeout, created) {
        (Some(t), Some(c)) => {
            let kept = t.secs < LONGEST_TIMEOUT_SECS || (t.secs == LONGEST_TIMEOUT_SECS && t.nanos
                <= LONGEST_TIMEOUT_NANOS);
            if !kept {
                return true;
            }
            let span: i64 = t.secs as i64;
            match c.checked_add(span) {
                Some(at) => FIRST_SECOND <= at && at <= LAST_SECOND && t.nanos < NANOS_PER_SEC,
                None => false,
            }
        },
        _ => true,
    }
}

/// The deadline of what was made at `created`.
pub fn deadline_for(timeout: Option<Span>, created: Option<i64>) -> (r: Option<Moment>)
    requires
        deadline_dated(timeout, created),
    ensures
        r == deadline(timeout, created),
        r matches Some(d) ==> d.valid(),
{
    match (timeout, created) {
        (Some(t), Some(c)) => {
            let kept = t.secs < LONGEST_TIMEOUT_SECS || (t.secs == LONGEST_TIMEOUT_SECS && t.nanos
                <= LONGEST_TIMEOUT_NANOS);
            if kept {
                Some(Moment { secs: c + t.secs as i64, nanos: t.nanos })
            } else {
                None
            }
        },
        _ => None,
    }
}

/// What a waiting message says of the deadline.
pub fn deadline_note(at: Option<Moment>, pending: &str) -> (r: String)
    requires
        at matches Some(d) ==> d.valid(),
    ensures
        r@ == deadline_clause(at, pending@),
{
    match at {
        Some(d) => {
            let mut m = "; staging fails at ".to_owned();
            let when = d.to_rfc3339_zulu();
            m.append(when.as_str());
            m.append(" if still ");
            m.append(pending);
            m
        },
        None => "; waiting indefinitely (spec.staging.timeout: 0)".to_owned(),
    }
}

/// What a waiting message says of an error: that it may pass by itself.
pub fn error_note(error: Option<&str>) -> (r: String)
    ensures
        r@ == error_clause(opt_str(error)),
{
    match error {
        Some(e) => {
            let mut m =
                "; it reported a possibly-transient error (the snapshot-controller retries automatically): ".to_owned();
            m.append(e);
            m
        },
        None => "".to_owned(),
    }
}

/// The text of a timeout, where there is one.
pub fn waited_text(timeout: Option<Span>) -> (r: String)
    ensures
        r@ == waited(timeout),
{
    match timeout {
        Some(t) => fmt_go_duration(t),
        None => "".to_owned(),
    }
}

/// Whether a deadline has passed.
pub fn has_expired(at: Option<Moment>, now: Moment) -> (r: bool)
    ensures
        r == (at matches Some(d) && now.reached(d)),
{
    match at {
        Some(d) => now.has_reached(d),
        None => false,
    }
}

/// Whether a snapshot is worth waiting for. One that is usable is, whatever else
/// it says. An error alone is never final, only the deadline is: it counts from when
/// the snapshot was made, and one that was just made has none yet.
pub fn vs_wait_outcome(
    obs: &VsObservation,
    ns: &str,
    vs_name: &str,
    class: &str,
    timeout: Option<Span>,
    now: Moment,
) -> (r: VsWait)
    requires
        !obs.ready ==> deadline_dated(timeout, obs.created_at),
    ensures
        r@ == vs_wait(
            obs.ready,
            opt_text(obs.restore_size),
            opt_text(obs.error),
            obs.created_at,
            ns@,
            vs_name@,
            class@,
            timeout,
            now,
        ),
{
    if obs.ready {
        return VsWait::Ready { restore_size: copy_opt(&obs.restore_size) };
    }
    let due = deadline_for(timeout, obs.created_at);
    if !has_expired(due, now) {
        let mut m = "waiting for VolumeSnapshot `".to_owned();
        m.append(ns);
        m.append("/");
        m.append(vs_name);
        m.append("` to become readyToUse");
        let note = error_note(borrow_opt(&obs.error));
        m.append(note.as_str());
        let until = deadline_note(due, "not ready");
        m.append(until.as_str());
        return VsWait::Waiting(m);
    }
    let budget = waited_text(timeout);
    let mut m = "VolumeSnapshot `".to_owned();
    m.append(ns);
    m.append("/");
    m.append(vs_name);
    m.append("` did not become readyToUse within ");
    m.append(budget.as_str());
    match &obs.error {
        Some(err) => {
            m.append(" (spec.staging.timeout; default 10m) and last reported: ");
            m.append(err.as_str());
            m.append(". Fix: check the VolumeSnapshotClass `");
            m.append(class);
            m.append(
                "` / CSI driver, or raise spec.staging.timeout if the backend is just slow. This Snapshot is terminal — the next scheduled run (or a new Snapshot) retries",
            );
            VsWait::Failed { reason: REASON_VS_FAILED, message: m }
        },
        None => {
            m.append(
                " (spec.staging.timeout; default 10m) and reported no error — the CSI driver or snapshot-controller is stuck or slow. Fix: check both, or raise spec.staging.timeout if the backend is just slow. This Snapshot is terminal — the next scheduled run (or a new Snapshot) retries",
            );
            VsWait::Failed { reason: REASON_STAGING_TIMEOUT, message: m }
        },
    }
}

/// When the volumes of a storage class are bound.
pub open spec fn binding_of(mode: Option<Seq<char>>) -> BindingMode {
    if mode == Some("WaitForFirstConsumer"@) {
        BindingMode::WaitForFirstConsumer
    } else {
        BindingMode::Immediate
    }
}

/// When the volumes of a storage class are bound: at once, unless it says
/// otherwise.
pub fn effective_binding_mode(volume_binding_mode: Option<&str>) -> (r: BindingMode)
    ensures
        r == binding_of(opt_str(volume_binding_mode)),
{
    if same_opt(volume_binding_mode, Some("WaitForFirstConsumer")) {
        BindingMode::WaitForFirstConsumer
    } else {
        BindingMode::Immediate
    }
}

/// A look at a staged claim.
pub fn staged_pvc_observation(pvc: &PersistentVolumeClaim) -> (r: StagedPvcObservation)
    ensures
        opt_text(r.phase) == opt_text(pvc.phase),
        r.created_at == pvc.created_at,
{
    StagedPvcObservation { phase: copy_opt(&pvc.phase), created_at: pvc.created_at }
}

/// How a message names a storage class.
pub fn bind_class_phrase(class: Option<&str>) -> (r: String)
    ensures
        r@ == class_phrase(opt_str(class)),
{
    match class {
        Some(c) => {
            let mut m = "StorageClass `".to_owned();
            m.append(c);
            m.append("`");
            m
        },
        None => "its StorageClass".to_owned(),
    }
}

/// The front of the message while a staged claim is not bound.
pub fn binding_message(ns: &str, pvc_name: &str, class: Option<&str>) -> (r: String)
    ensures
        r@ == binding_text(ns@, pvc_name@, opt_str(class)),
{
    let mut m = "waiting for staged PVC `".to_owned();
    m.append(ns);
    m.append("/");
    m.append(pvc_name);
    m.append("` (");
    let phrase = bind_class_phrase(class);
    m.append(phrase.as_str());
    m.append(") to bind; the CSI restore/clone from the source is provisioning");
    m
}

/// Whether the phase of a staged claim alone says whether to wait for it.
pub open spec fn settled(phase: Option<Seq<char>>) -> bool {
    phase == Some("Bound"@) || phase == Some("Lost"@)
}

/// Whether the phase of a staged claim alone says whether to wait for it.
pub fn is_settled(phase: Option<&str>) -> (r: bool)
    ensures
        r == settled(opt_str(phase)),
{
    same_opt(phase, Some("Bound")) || same_opt(phase, Some("Lost"))
}

/// Whether a staged claim is worth waiting for. One that is bound is; one whose
/// volume is gone is not. Otherwise the deadline decides, as for a snapshot.
pub fn pvc_bind_outcome(
    obs: &StagedPvcObservation,
    ns: &str,
    pvc_name: &str,
    class: Option<&str>,
    timeout: Option<Span>,
    now: Moment,
) -> (r: PvcBindWait)
    requires
        !settled(opt_text(obs.phase)) ==> deadline_dated(timeout, obs.created_at),
    ensures
        r@ == bind_wait(
            opt_text(obs.phase),
            obs.created_at,
            ns@,
            pvc_name@,
            opt_str(class),
            timeout,
            now,
        ),
{
    proof {
        reveal_strlit("Bound");
        reveal_strlit("Lost");
        assert("Bound"@.len() != "Lost"@.len());
    }
    if same_opt(borrow_opt(&obs.phase), Some("Bound")) {
        return PvcBindWait::Bound;
    }
    if same_opt(borrow_opt(&obs.phase), Some("Lost")) {
        let mut m = "staged PVC `".to_owned();
        m.append(ns);
        m.append("/");
        m.append(pvc_name);
        m.append(
            "` reports phase Lost — its bound PersistentVolume disappeared, so the stage can never become usable; check the CSI driver / PV lifecycle. This Snapshot is terminal — the next scheduled run (or a new Snapshot) retries",
        );
        return PvcBindWait::Failed { reason: REASON_STAGED_PVC_LOST, message: m };
    }
    let due = deadline_for(timeout, obs.created_at);
    if !has_expired(due, now) {
        let mut m = binding_message(ns, pvc_name, class);
        let until = deadline_note(due, "unbound");
        m.append(until.as_str());
        return PvcBindWait::Waiting(m);
    }
    let budget = waited_text(timeout);
    let phrase = bind_class_phrase(class);
    let mut m = "staged PVC `".to_owned();
    m.append(ns);
    m.append("/");
    m.append(pvc_name);
    m.append("` did not reach Bound within ");
    m.append(budget.as_str());
    m.append(
        " (spec.staging.timeout; default 10m) — the CSI restore/clone is still provisioning, or ",
    );
    m.append(phrase.as_str());
    m.append(" cannot provision it. Fix: check `kubectl describe pvc -n ");
    m.append(ns);
    m.append(" ");
    m.append(pvc_name);
    m.append(
        "` and the CSI provisioner logs, raise spec.staging.timeout if the copy is slow, or (CephFS) stage on a `backingSnapshot: \"true\"` class via spec.staging.storageClassName for a near-instant shallow mount. This Snapshot is terminal — the next scheduled run (or a new Snapshot) retries",
    );
    PvcBindWait::Failed { reason: REASON_STAGED_PVC_BIND_TIMEOUT, message: m }
}

/// Whether a backup is staged at all. A source that is no claim never is, and
/// that is looked at before the install: nothing about it needs the whole cluster.
pub fn staging_applicability<'a>(
    copy_method: CopyMethod,
    source_pvc: Option<&'a str>,
    namespaced_install: bool,
) -> (r: StagingApplicability<'a>)
    ensures
        match source_pvc {
            Some(name) => if copy_method == CopyMethod::Direct {
                r is NotApplicable
            } else if namespaced_install {
                r is ClusterScopeRequired
            } else {
                r matches StagingApplicability::Proceed { source_name } && source_name == name
            },
            None => r is NotApplicable,
        },
{
    if copy_method == CopyMethod::Direct {
        return StagingApplicability::NotApplicable;
    }
    match source_pvc {
        None => StagingApplicability::NotApplicable,
        Some(name) => if namespaced_install {
            StagingApplicability::ClusterScopeRequired
        } else {
            StagingApplicability::Proceed { source_name: name }
        },
    }
}

/// The storage class of a claim.
pub fn staged_class_of(staged: &PersistentVolumeClaim) -> (r: Option<String>)
    ensures
        opt_text(r) == match staged.spec {
            Some(s) => opt_text(s.storage_class_name),
            None => None,
        },
{
    match &staged.spec {
        Some(s) => copy_opt(&s.storage_class_name),
        None => None,
    }
}

proof fn lemma_ascii_is_nameable(base: Seq<char>, suffix: Seq<char>)
    requires
        is_ascii_chars(base),
        encode_utf8(suffix).len() <= MAX_NAME_LEN - 10,
    ensures
        can_name(base, suffix),
{
    if !fits_uncut(base, suffix) {
        is_ascii_chars_encode_utf8(base);
        let bytes = encode_utf8(base);
        let k = kept_bytes(base, suffix);
        encode_utf8_valid_utf8(base);
        is_char_boundary_start_end_of_seq(bytes);
        if 0 < k < bytes.len() {
            is_char_boundary_iff_not_is_continuation_byte(bytes, k);
            assert(bytes[k] == base[k] as u8);
            assert(bytes[k] < 128);
            assert(!is_continuation_byte(bytes[k])) by {
                let b = bytes[k];
                assert(b < 128 ==> !(0x80 <= b && b <= 0xbf)) by (bit_vector);
            }
        }
    }
}

/// Every ASCII name of a `Snapshot` gives its snapshot and its staged claim a name.
pub proof fn lemma_ascii_names_can_be_staged(base: Seq<char>)
    requires
        is_ascii_chars(base),
    ensures
        can_name(base, "snap"@),
        can_name(base, "src"@),
        can_name(base, "grp"@),
{
    reveal_strlit("snap");
    reveal_strlit("src");
    reveal_strlit("grp");
    lemma_chars_within_bytes("snap"@);
    lemma_chars_within_bytes("src"@);
    lemma_chars_within_bytes("grp"@);
    lemma_ascii_is_nameable(base, "snap"@);
    lemma_ascii_is_nameable(base, "src"@);
    lemma_ascii_is_nameable(base, "grp"@);
}

/// A staged name takes at most 63 bytes and ends in its suffix.
pub proof fn lemma_child_name_fits(base: Seq<char>, suffix: Seq<char>)
    requires
        can_name(base, suffix),
    ensures
        encode_utf8(child_name(base, suffix)).len() <= MAX_NAME_LEN,
        ends_in(child_name(base, suffix), "-"@ + suffix),
{
    reveal_strlit("-");
    let r = child_name(base, suffix);
    assert(r.skip(r.len() - ("-"@ + suffix).len()) =~= "-"@ + suffix);
    if !fits_uncut(base, suffix) {
        let bytes = encode_utf8(base);
        let k = kept_bytes(base, suffix);
        let cut = bytes.take(k);
        let front = decode_utf8(cut);
        lemma_encode_concat(base, "-"@);
        lemma_encode_concat(base + "-"@, suffix);
        lemma_chars_within_bytes("-"@);
        is_ascii_chars_encode_utf8("-"@);
        encode_utf8_valid_utf8(base);
        valid_utf8_split(bytes, k);
        assert(bytes.subrange(0, k) =~= cut);
        decode_utf8_encode_utf8(cut);
        lemma_short_hash_shape(base);
        lemma_hex_is_ascii((text_hash(base) & 0xffff_ffff) as nat, 8);
        is_ascii_chars_encode_utf8(short(base));
        lemma_encode_concat(front, "-"@);
        lemma_encode_concat(front + "-"@, short(base));
        lemma_encode_concat(front + "-"@ + short(base), "-"@);
        lemma_encode_concat(front + "-"@ + short(base) + "-"@, suffix);
    }
}

/// A staged claim is never smaller than what its snapshot is restored to, nor
/// than the source, as far as both can be read.
pub proof fn lemma_staged_size_is_the_larger(restore: Option<Seq<char>>, source: Option<Seq<char>>)
    requires
        bytes_or_zero(restore) >= 0,
        bytes_or_zero(source) >= 0,
    ensures
        bytes_or_zero(larger_quantity(restore, source)) == if bytes_or_zero(restore)
            >= bytes_or_zero(source) {
            bytes_or_zero(restore)
        } else {
            bytes_or_zero(source)
        },
        larger_quantity(restore, source) == restore || larger_quantity(restore, source) == source,
{
}

/// What is usable is used, whatever its error says and however late it is.
pub proof fn lemma_ready_wins(
    restore_size: Option<Seq<char>>,
    error: Option<Seq<char>>,
    created: Option<i64>,
    ns: Seq<char>,
    name: Seq<char>,
    class: Seq<char>,
    timeout: Option<Span>,
    now: Moment,
)
    ensures
        vs_wait(true, restore_size, error, created, ns, name, class, timeout, now)
            == WaitView::Ready(restore_size),
        forall|bound_by: Option<Seq<char>>|
            bind_wait(Some("Bound"@), created, ns, name, bound_by, timeout, now)
                == WaitView::Ready(None),
{
}

/// An error is never what ends the wait for a snapshot: with and without one it
/// ends at the same time, which is the deadline. Without a timeout, or without the
/// time of its making, that never comes.
pub proof fn lemma_only_the_deadline_fails(
    restore_size: Option<Seq<char>>,
    error: Option<Seq<char>>,
    created: Option<i64>,
    ns: Seq<char>,
    name: Seq<char>,
    class: Seq<char>,
    timeout: Option<Span>,
    now: Moment,
)
    ensures
        vs_wait(false, restore_size, error, created, ns, name, class, timeout, now) is Failed
            <==> expired(timeout, created, now),
        timeout is None || created is None ==> !expired(timeout, created, now),
{
}

/// A waiting message does not change with the clock, so that a wait does not
/// write a new status on every look.
pub proof fn lemma_waiting_is_steady(
    restore_size: Option<Seq<char>>,
    error: Option<Seq<char>>,
    phase: Option<Seq<char>>,
    created: Option<i64>,
    ns: Seq<char>,
    name: Seq<char>,
    class: Seq<char>,
    timeout: Option<Span>,
    now: Moment,
    later: Moment,
)
    ensures
        ({
            let a = vs_wait(false, restore_size, error, created, ns, name, class, timeout, now);
            let b = vs_wait(false, restore_size, error, created, ns, name, class, timeout, later);
            a is Waiting && b is Waiting ==> a == b
        }),
        forall|bound_by: Option<Seq<char>>|
            ({
                let a = #[trigger] bind_wait(phase, created, ns, name, bound_by, timeout, now);
                let b = bind_wait(phase, created, ns, name, bound_by, timeout, later);
                a is Waiting && b is Waiting ==> a == b
            }),
{
}

/// The kind `VolumeSnapshot`: the snapshot of a volume.
pub fn volume_snapshot_ar() -> (r: ApiResource)
    ensures
        r.has_names(SNAPSHOT_GROUP@, "v1"@, "VolumeSnapshot"@, "volumesnapshots"@),
{
    ApiResource::named(SNAPSHOT_GROUP, "v1", "VolumeSnapshot", "volumesnapshots")
}

/// The kind `VolumeSnapshotClass`: how a volume is snapshotted.
pub fn volume_snapshot_class_ar() -> (r: ApiResource)
    ensures
        r.has_names(SNAPSHOT_GROUP@, "v1"@, "VolumeSnapshotClass"@, "volumesnapshotclasses"@),
{
    ApiResource::named(SNAPSHOT_GROUP, "v1", "VolumeSnapshotClass", "volumesnapshotclasses")
}

/// The kind `VolumeSnapshotContent`: what a snapshot holds.
pub fn volume_snapshot_content_ar() -> (r: ApiResource)
    ensures
        r.has_names(SNAPSHOT_GROUP@, "v1"@, "VolumeSnapshotContent"@, "volumesnapshotcontents"@),
{
    ApiResource::named(SNAPSHOT_GROUP, "v1", "VolumeSnapshotContent", "volumesnapshotcontents")
}

proof fn lemma_quantity_of(n: nat, unit: Seq<char>, size: int)
    requires
        n <= i128::MAX,
        unit.len() > 0,
        !is_space(unit.last()),
        quantity_parts(decimal(n) + unit) == (decimal(n), size),
    ensures
        quantity_bytes(decimal(n) + unit) == Some(n * size),
{
    let d = decimal(n);
    lemma_decimal_reads_back(n);
    assert(is_digit(d[0]));
    assert(is_digit(d[d.len() - 1]));
    lemma_characters(d[0]);
    lemma_characters(d.last());
    lemma_trimmed_stays(d);
    assert((d + unit).first() == d[0]);
    assert((d + unit).last() == unit.last());
    lemma_trimmed_stays(d + unit);
}

/// What a number with a unit stands for. The binary units count in powers of 1024, the
/// decimal ones in powers of 1000, and without a unit the number counts bytes.
pub proof fn lemma_quantities(n: nat)
    requires
        n <= i128::MAX,
    ensures
        quantity_bytes(decimal(n)) == Some(n as int),
        quantity_bytes(decimal(n) + "Ki"@) == Some((n * 0x400) as int),
        quantity_bytes(decimal(n) + "Mi"@) == Some((n * 0x10_0000) as int),
        quantity_bytes(decimal(n) + "Gi"@) == Some((n * 0x4000_0000) as int),
        quantity_bytes(decimal(n) + "Ti"@) == Some((n * 0x100_0000_0000) as int),
        quantity_bytes(decimal(n) + "Pi"@) == Some((n * 0x4_0000_0000_0000) as int),
        quantity_bytes(decimal(n) + "k"@) == Some((n * 1_000) as int),
        quantity_bytes(decimal(n) + "M"@) == Some((n * 1_000_000) as int),
        quantity_bytes(decimal(n) + "G"@) == Some((n * 1_000_000_000) as int),
        quantity_bytes(decimal(n) + "T"@) == Some((n * 1_000_000_000_000) as int),
{
    lemma_reveal_units();
    let d = decimal(n);
    let m = d.len() as int;
    lemma_decimal_reads_back(n);
    assert(is_digit(d[0]));
    assert(is_digit(d[m - 1]));
    lemma_characters(d[0]);
    lemma_characters(d.last());
    lemma_trimmed_stays(d);
    lemma_plain_has_no_unit(d);
    assert(quantity_parts(d) == (d, 1int));
    assert(small_integer(d) == Some(n as int));
    assert(quantity_bytes(d) == Some((n as int) * 1int));
    lemma_ends_differ(d, "Ki"@);
    lemma_ends_differ(d, "Mi"@);
    lemma_ends_differ(d, "Gi"@);
    lemma_ends_differ(d, "Ti"@);
    lemma_ends_differ(d, "Pi"@);
    lemma_ends_differ(d, "k"@);
    lemma_ends_differ(d, "M"@);
    lemma_ends_differ(d, "G"@);
    lemma_ends_differ(d, "T"@);
    lemma_quantity_of(n, "Ki"@, 0x400);
    lemma_quantity_of(n, "Mi"@, 0x10_0000);
    lemma_quantity_of(n, "Gi"@, 0x4000_0000);
    lemma_quantity_of(n, "Ti"@, 0x100_0000_0000);
    lemma_quantity_of(n, "Pi"@, 0x4_0000_0000_0000);
    lemma_quantity_of(n, "k"@, 1_000);
    lemma_quantity_of(n, "M"@, 1_000_000);
    lemma_quantity_of(n, "G"@, 1_000_000_000);
    lemma_quantity_of(n, "T"@, 1_000_000_000_000);
}

proof fn lemma_reveal_units()
    ensures
        "Ki"@ == seq!['K', 'i'],
        "Mi"@ == seq!['M', 'i'],
        "Gi"@ == seq!['G', 'i'],
        "Ti"@ == seq!['T', 'i'],
        "Pi"@ == seq!['P', 'i'],
        "k"@ == seq!['k'],
        "M"@ == seq!['M'],
        "G"@ == seq!['G'],
        "T"@ == seq!['T'],
{
    reveal_strlit("Ki");
    reveal_strlit("Mi");
    reveal_strlit("Gi");
    reveal_strlit("Ti");
    reveal_strlit("Pi");
    reveal_strlit("k");
    reveal_strlit("M");
    reveal_strlit("G");
    reveal_strlit("T");
    assert("Ki"@ =~= seq!['K', 'i']);
    assert("Mi"@ =~= seq!['M', 'i']);
    assert("Gi"@ =~= seq!['G', 'i']);
    assert("Ti"@ =~= seq!['T', 'i']);
    assert("Pi"@ =~= seq!['P', 'i']);
    assert("k"@ =~= seq!['k']);
    assert("M"@ =~= seq!['M']);
    assert("G"@ =~= seq!['G']);
    assert("T"@ =~= seq!['T']);
}

/// What a text with a unit at its end ends in, and what stands before it.
proof fn lemma_ends_differ(d: Seq<char>, unit: Seq<char>)
    requires
        unit.len() == 1 || unit.len() == 2,
    ensures
        ends_in(d + unit, unit),
        (d + unit).take((d + unit).len() - unit.len()) == d,
        forall|other: Seq<char>|
            other.len() == unit.len() && other != unit ==> !(#[trigger] ends_in(d + unit, other)),
        forall|other: Seq<char>|
            1 <= other.len() <= 2 && other.last() != unit.last() ==> !(#[trigger] ends_in(
                d + unit,
                other,
            )),
{
    let q = d + unit;
    assert(q.skip(d.len() as int) =~= unit);
    assert(q.take(d.len() as int) =~= d);
    assert forall|other: Seq<char>| 1 <= other.len() <= 2 && other.last() != unit.last() implies !(
    #[trigger] ends_in(q, other)) by {
        if ends_in(q, other) {
            assert(q.skip(q.len() - other.len()).last() == q.last());
        }
    }
}

/// A text whose last character is no letter of a unit has none.
proof fn lemma_plain_has_no_unit(q: Seq<char>)
    requires
        q.len() > 0,
        q.last() != 'i',
        q.last() != 'k',
        q.last() != 'M',
        q.last() != 'G',
        q.last() != 'T',
    ensures
        quantity_parts(q) == (q, 1int),
{
    lemma_reveal_units();
    lemma_no_end(q, "Ki"@);
    lemma_no_end(q, "Mi"@);
    lemma_no_end(q, "Gi"@);
    lemma_no_end(q, "Ti"@);
    lemma_no_end(q, "Pi"@);
    lemma_no_end(q, "k"@);
    lemma_no_end(q, "M"@);
    lemma_no_end(q, "G"@);
    lemma_no_end(q, "T"@);
}

proof fn lemma_no_end(q: Seq<char>, other: Seq<char>)
    requires
        q.len() > 0,
        other.len() > 0,
        q.last() != other.last(),
    ensures
        !ends_in(q, other),
{
    if ends_in(q, other) {
        assert(q.skip(q.len() - other.len()).last() == q.last());
    }
}

/// White space around a quantity does not count.
pub proof fn lemma_quantities_may_have_space(q: Seq<char>, c: char)
    requires
        is_space(c),
    ensures
        quantity_bytes(q.push(c)) == quantity_bytes(q),
        quantity_bytes(seq![c] + q) == quantity_bytes(q),
{
    lemma_trim_drops_ends(q, c);
}

/// A quantity that ends in anything but a digit and a known unit cannot be read: not
/// larger units, nor fractions with a unit of their own, nor other words.
pub proof fn lemma_other_units_are_unreadable(q: Seq<char>)
    requires
        q.len() > 0,
        '!' <= q.last() <= '~',
        !('0' <= q.last() <= '9'),
        q.last() != 'k' && q.last() != 'M' && q.last() != 'G' && q.last() != 'T',
        q.last() == 'i' ==> q.len() >= 2 && q[q.len() - 2] != 'K' && q[q.len() - 2] != 'M' && q[q.len()
            - 2] != 'G' && q[q.len() - 2] != 'T' && q[q.len() - 2] != 'P',
    ensures
        quantity_bytes(q) is None,
{
    lemma_reveal_units();
    lemma_characters(q.last());
    lemma_trimming(q);
    let t = trimmed(q);
    let (a, b) = choose|a: int, b: int|
        #![trigger q.subrange(a, b)]
        0 <= a <= b <= q.len() && t == q.subrange(a, b) && (forall|i: int|
            0 <= i < q.len() && !(a <= i < b) ==> is_space(#[trigger] q[i]));
    assert(a <= q.len() - 1 < b);
    assert(t.last() == q.last());
    if t.last() != 'i' {
        lemma_plain_has_no_unit(t);
    } else {
        assert forall|u: Seq<char>|
            u.len() == 2 && (u[0] == 'K' || u[0] == 'M' || u[0] == 'G' || u[0] == 'T' || u[0] == 'P')
            implies !(#[trigger] ends_in(t, u)) by {
            if ends_in(t, u) {
                assert(t.skip(t.len() - 2)[0] == u[0]);
                assert(t[t.len() - 2] == q[b - 2]);
            }
        }
        lemma_no_end(t, "k"@);
        lemma_no_end(t, "M"@);
        lemma_no_end(t, "G"@);
        lemma_no_end(t, "T"@);
    }
    assert(quantity_parts(t) == (t, 1int));
    lemma_trimmed_stays(t);
    lemma_what_an_integer_is(t);
    if t.len() > 1 {
        assert(!('0' <= t[t.len() - 1] <= '9'));
    } else {
        assert(t[0] == q.last());
        if t[0] == '-' || t[0] == '+' {
            assert(t =~= seq![t[0]]);
        }
    }
}

/// The staged claim is as large as the larger of its snapshot and its source, told as it
/// is written there. What cannot be read counts as nothing, and where nothing is known of
/// the snapshot the source decides.
pub proof fn lemma_staged_size(restore: Option<Seq<char>>, source: Option<Seq<char>>)
    ensures
        restore is None ==> larger_quantity(restore, source) == source,
        restore matches Some(r) ==> {
            let size = match quantity_bytes(r) {
                Some(v) => v,
                None => 0,
            };
            let needed = match source {
                Some(s) => match quantity_bytes(s) {
                    Some(v) => v,
                    None => 0,
                },
                None => 0,
            };
            larger_quantity(restore, source) == if size > 0 && size >= needed {
                restore
            } else {
                source
            }
        },
{
}

/// Quantities that fit are those that 128 bits hold.
pub proof fn lemma_what_fits(n: nat)
    requires
        n <= i128::MAX,
    ensures
        quantity_fits(None),
        quantity_fits(Some(decimal(n))),
        quantity_fits(Some(decimal(n) + "Pi"@)) <==> n * 0x4_0000_0000_0000 <= i128::MAX,
{
    lemma_quantities(n);
}

/// A class that is asked for by name is used where it exists and is not replaced where it
/// does not. White space around the name does not count, and a blank name asks for none.
pub proof fn lemma_an_asked_class_wins(
    classes: Seq<ClassInfo>,
    driver: Seq<char>,
    asked: Seq<char>,
)
    ensures
        trimmed(asked).len() == 0 ==> chosen_class(classes, driver, Some(asked)) == chosen_class(
            classes,
            driver,
            None,
        ),
        trimmed(asked).len() > 0 ==> chosen_class(classes, driver, Some(asked)) == if exists|i: int|
            0 <= i < classes.len() && #[trigger] classes[i].name@ == trimmed(asked) {
            ClassDecisionView::Use(trimmed(asked))
        } else {
            ClassDecisionView::ExplicitNotFound(trimmed(asked))
        },
{
    let names = class_names(classes);
    if names.contains(trimmed(asked)) {
        let i = names.index_of(trimmed(asked));
        assert(classes[i].name@ == trimmed(asked));
    }
    if exists|i: int| 0 <= i < classes.len() && #[trigger] classes[i].name@ == trimmed(asked) {
        let i = choose|i: int| 0 <= i < classes.len() && #[trigger] classes[i].name@ == trimmed(asked);
        assert(names[i] == trimmed(asked));
    }
}

proof fn lemma_of_driver(classes: Seq<ClassInfo>, driver: Seq<char>, f: spec_fn(ClassInfo) -> bool)
    requires
        forall|c: ClassInfo| #[trigger] f(c) == (c.driver@ == driver),
    ensures
        of_driver(classes, driver) == classes.filter(f),
    decreases classes.len(),
{
    reveal(Seq::filter);
    if classes.len() > 0 {
        lemma_of_driver(classes.drop_last(), driver, f);
        assert(f(classes.last()) == (classes.last().driver@ == driver));
    }
}

proof fn lemma_defaults_among(classes: Seq<ClassInfo>, f: spec_fn(ClassInfo) -> bool)
    requires
        forall|c: ClassInfo| #[trigger] f(c) == c.is_default,
    ensures
        defaults_among(classes) == classes.filter(f),
    decreases classes.len(),
{
    reveal(Seq::filter);
    if classes.len() > 0 {
        lemma_defaults_among(classes.drop_last(), f);
        assert(f(classes.last()) == classes.last().is_default);
    }
}

/// Where no class is asked for, none fits where the driver has none.
pub proof fn lemma_no_class_of_the_driver(classes: Seq<ClassInfo>, driver: Seq<char>)
    requires
        forall|i: int| 0 <= i < classes.len() ==> #[trigger] classes[i].driver@ != driver,
    ensures
        chosen_class(classes, driver, None) == ClassDecisionView::NoneForDriver(driver),
{
    let f = |c: ClassInfo| c.driver@ == driver;
    lemma_filter_none(classes, f);
    lemma_of_driver(classes, driver, f);
}

/// Where no class is asked for, the driver's only class is used, default or not.
pub proof fn lemma_the_only_class_is_used(classes: Seq<ClassInfo>, driver: Seq<char>, at: int)
    requires
        0 <= at < classes.len(),
        classes[at].driver@ == driver,
        forall|i: int|
            0 <= i < classes.len() && i != at ==> #[trigger] classes[i].driver@ != driver,
    ensures
        chosen_class(classes, driver, None) == ClassDecisionView::Use(classes[at].name@),
{
    let f = |c: ClassInfo| c.driver@ == driver;
    lemma_filter_one(classes, f, at);
    lemma_of_driver(classes, driver, f);
}

/// Among several classes of the driver the only default of them is used. A default of
/// another driver plays no part.
pub proof fn lemma_the_default_class_is_used(
    classes: Seq<ClassInfo>,
    driver: Seq<char>,
    at: int,
    other: int,
)
    requires
        0 <= at < classes.len(),
        0 <= other < classes.len(),
        at != other,
        classes[at].driver@ == driver,
        classes[at].is_default,
        classes[other].driver@ == driver,
        forall|i: int|
            0 <= i < classes.len() && i != at ==> !((#[trigger] classes[i]).driver@ == driver
                && classes[i].is_default),
    ensures
        chosen_class(classes, driver, None) == ClassDecisionView::Use(classes[at].name@),
{
    let f = |c: ClassInfo| c.driver@ == driver;
    let g = |c: ClassInfo| c.is_default;
    lemma_filter_some(
        classes,
        f,
        if at < other {
            at
        } else {
            other
        },
        if at < other {
            other
        } else {
            at
        },
    );
    let both = |c: ClassInfo| f(c) && g(c);
    lemma_filter_twice(classes, f, g);
    lemma_filter_one(classes, both, at);
    lemma_of_driver(classes, driver, f);
    lemma_defaults_among(classes.filter(f), g);
}

/// Among several classes of the driver nothing is guessed: with no default among them, or
/// with several, the choice is told to be open, with the names of the driver's classes.
pub proof fn lemma_an_open_choice_is_told(
    classes: Seq<ClassInfo>,
    driver: Seq<char>,
    a: int,
    b: int,
)
    requires
        0 <= a < b < classes.len(),
        classes[a].driver@ == driver,
        classes[b].driver@ == driver,
        (classes[a].is_default && classes[b].is_default) || forall|i: int|
            0 <= i < classes.len() ==> !((#[trigger] classes[i]).driver@ == driver
                && classes[i].is_default),
    ensures
        chosen_class(classes, driver, None) matches ClassDecisionView::Ambiguous(d, names) && d
            == driver && names.contains(classes[a].name@) && names.contains(classes[b].name@)
            && names.len() <= classes.len(),
{
    let f = |c: ClassInfo| c.driver@ == driver;
    let g = |c: ClassInfo| c.is_default;
    let both = |c: ClassInfo| f(c) && g(c);
    let candidates = classes.filter(f);
    lemma_filter_some(classes, f, a, b);
    lemma_filter_twice(classes, f, g);
    if classes[a].is_default && classes[b].is_default {
        lemma_filter_some(classes, both, a, b);
    } else {
        lemma_filter_none(classes, both);
    }
    classes.lemma_filter_len(f);
    classes.lemma_filter_contains(f, a);
    classes.lemma_filter_contains(f, b);
    lemma_of_driver(classes, driver, f);
    lemma_defaults_among(candidates, g);
    let names = class_names(candidates);
    let x = candidates.index_of(classes[a]);
    let y = candidates.index_of(classes[b]);
    assert(names[x] == classes[a].name@);
    assert(names[y] == classes[b].name@);
}

/// A deadline lies one timeout after the making, and has passed from then on: not before,
/// and ever after.
pub proof fn lemma_deadlines(t: Span, created: i64, now: Moment)
    requires
        deadline_dated(Some(t), Some(created)),
        t.secs as int * 1_000_000_000 + t.nanos <= 9_223_372_036_854_775_807_000_000,
        t.nanos < 1_000_000_000,
    ensures
        deadline(Some(t), Some(created)) == Some(
            Moment { secs: (created + t.secs) as i64, nanos: t.nanos },
        ),
        expired(Some(t), Some(created), now) <==> now.secs > created + t.secs || (now.secs == created
            + t.secs && now.nanos >= t.nanos),
{
}

/// Without a timeout nothing expires, nor what was never seen made, nor what may wait
/// longer than the milliseconds of 64 bits.
pub proof fn lemma_no_deadline(timeout: Option<Span>, created: Option<i64>, now: Moment)
    requires
        timeout matches Some(t) ==> t.nanos < 1_000_000_000,
        timeout is None || created is None || (timeout matches Some(t) && t.secs as int
            * 1_000_000_000 + t.nanos > 9_223_372_036_854_775_807_000_000),
    ensures
        deadline(timeout, created) is None,
        !expired(timeout, created, now),
        deadline_dated(timeout, created),
{
}

/// A timeout is told in the largest unit that it is a whole number of.
pub proof fn lemma_timeouts_are_told(n: nat)
    ensures
        n > 0 ==> go_duration(n * 3600) == decimal(n) + "h"@,
        n % 60 != 0 ==> go_duration(n * 60) == decimal(n) + "m"@,
        n % 60 != 0 ==> go_duration(n) == decimal(n) + "s"@,
        go_duration(0) == decimal(0) + "s"@,
        waited(None) == ""@,
        forall|t: Span| #[trigger] waited(Some(t)) == go_duration(t.secs as nat),
{
    if n > 0 {
        assert((n * 3600) % 3600 == 0 && (n * 3600) / 3600 == n) by (nonlinear_arith);
    }
    if n % 60 != 0 {
        assert((n * 60) % 60 == 0 && (n * 60) / 60 == n) by (nonlinear_arith);
        assert((n * 60) % 3600 != 0) by (nonlinear_arith)
            requires
                n % 60 != 0,
        ;
        assert(n % 3600 != 0) by (nonlinear_arith)
            requires
                n % 60 != 0,
        ;
    }
}

/// How a wait for a staged claim stands: it is over for good where the claim is bound, it
/// has failed where the claim's volume is lost or its time is up, and it goes on otherwise.
pub proof fn lemma_how_binding_stands(
    phase: Option<Seq<char>>,
    created: Option<i64>,
    ns: Seq<char>,
    name: Seq<char>,
    class: Option<Seq<char>>,
    timeout: Option<Span>,
    now: Moment,
)
    ensures
        ({
            let w = bind_wait(phase, created, ns, name, class, timeout, now);
            &&& w is Ready <==> phase == Some("Bound"@)
            &&& w is Failed <==> phase == Some("Lost"@) || (phase != Some("Bound"@) && expired(
                timeout,
                created,
                now,
            ))
            &&& w matches WaitView::Failed(reason, _) ==> reason == if phase == Some("Lost"@) {
                REASON_STAGED_PVC_LOST@
            } else {
                REASON_STAGED_PVC_BIND_TIMEOUT@
            }
        }),
        settled(phase) <==> phase == Some("Bound"@) || phase == Some("Lost"@),
{
    reveal_strlit("Bound");
    reveal_strlit("Lost");
    assert("Bound"@.len() != "Lost"@.len());
}

/// How a wait for a snapshot stands: what is usable is used with the size it gives, what
/// is late has failed, and the reason tells whether an error was reported.
pub proof fn lemma_how_a_snapshot_stands(
    ready: bool,
    restore_size: Option<Seq<char>>,
    error: Option<Seq<char>>,
    created: Option<i64>,
    ns: Seq<char>,
    name: Seq<char>,
    class: Seq<char>,
    timeout: Option<Span>,
    now: Moment,
)
    ensures
        ({
            let w = vs_wait(ready, restore_size, error, created, ns, name, class, timeout, now);
            &&& ready <==> w is Ready
            &&& w matches WaitView::Ready(size) ==> size == restore_size
            &&& w is Failed <==> !ready && expired(timeout, created, now)
            &&& w matches WaitView::Failed(reason, _) ==> reason == if error is Some {
                REASON_VS_FAILED@
            } else {
                REASON_STAGING_TIMEOUT@
            }
        }),
{
}

/// The class that a policy asks for is refused exactly where it does not exist or belongs
/// to another driver than the source's known one.
pub proof fn lemma_which_classes_are_refused(
    class: Seq<char>,
    class_driver: Option<Seq<char>>,
    source_driver: Option<Seq<char>>,
)
    ensures
        preflight_fault(class, class_driver, source_driver) is None <==> class_driver is Some && (
        source_driver is None || source_driver == class_driver),
        preflight_fault(class, class_driver, source_driver) matches Some(f) ==> f.0
            == if class_driver is None {
            REASON_STAGED_CLASS_NOT_FOUND@
        } else {
            REASON_STAGED_CLASS_MISMATCH@
        },
{
}

/// A clone is filled from the source itself; everything else is filled from a snapshot.
pub proof fn lemma_what_fills_a_claim(
    r: TypedLocalObjectReference,
    method: CopyMethod,
    source: Seq<char>,
    snapshot: Seq<char>,
)
    requires
        source_view(r) == filled_from(method, source, snapshot),
    ensures
        method == CopyMethod::Clone ==> r.api_group is None && r.kind@ == "PersistentVolumeClaim"@
            && r.name@ == source,
        method != CopyMethod::Clone ==> opt_text(r.api_group) == Some("snapshot.storage.k8s.io"@)
            && r.kind@ == "VolumeSnapshot"@ && r.name@ == snapshot,
{
}

/// What a policy asks for goes before what the source has, for the class and the access
/// modes each on its own; an empty list of modes asks for nothing.
pub proof fn lemma_what_is_asked_goes_first(staging: StagingSpec, source: PvcSpec)
    ensures
        staging.storage_class_name is Some ==> staged_class(Some(staging), Some(source)) == opt_text(
            staging.storage_class_name,
        ),
        staging.storage_class_name is None ==> staged_class(Some(staging), Some(source)) == opt_text(
            source.storage_class_name,
        ),
        staged_class(None, Some(source)) == opt_text(source.storage_class_name),
        staged_class(None, None) is None,
        staging.access_modes@.len() > 0 ==> (staged_modes(Some(staging), Some(source)) matches Some(m)
            && m.len() == staging.access_modes@.len() && forall|i: int|
            0 <= i < m.len() ==> #[trigger] m[i] == (match staging.access_modes@[i] {
                PvcAccessMode::ReadWriteOnce => "ReadWriteOnce"@,
                PvcAccessMode::ReadOnlyMany => "ReadOnlyMany"@,
                PvcAccessMode::ReadWriteMany => "ReadWriteMany"@,
                PvcAccessMode::ReadWriteOncePod => "ReadWriteOncePod"@,
            })),
        staging.access_modes@.len() == 0 ==> staged_modes(Some(staging), Some(source)) == opt_texts(
            source.access_modes,
        ),
        staged_modes(None, Some(source)) == opt_texts(source.access_modes),
        requested_storage(Some(source)) == opt_text(source.storage_request),
        requested_storage(None) is None,
        source.access_modes matches Some(v) ==> opt_texts(source.access_modes) == Some(texts(v@)),
        source.access_modes is None ==> opt_texts(source.access_modes) is None,
{
}

/// A claim is bound where it names a volume, and has a class where it names one; an empty
/// name is none.
pub proof fn lemma_what_a_claim_names(pvc: PersistentVolumeClaim, spec: PvcSpec)
    requires
        pvc.spec == Some(spec),
    ensures
        bound_volume(pvc.spec) == (match spec.volume_name {
            Some(v) => if v@.len() > 0 {
                Some(v@)
            } else {
                None
            },
            None => None,
        }),
        class_of(pvc) == (match spec.storage_class_name {
            Some(c) => if c@.len() > 0 {
                Some(c@)
            } else {
                None
            },
            None => None,
        }),
        bound_volume(None) is None,
{
}

/// Volumes wait for their consumer only where their class says so in these words.
pub proof fn lemma_when_volumes_are_bound(mode: Option<Seq<char>>)
    ensures
        binding_of(mode) == BindingMode::WaitForFirstConsumer <==> mode == Some(
            "WaitForFirstConsumer"@,
        ),
        binding_of(None) == BindingMode::Immediate,
{
}

/// The name of a child tells what it is: the names for two suffixes differ, and a name
/// that fits is made of the whole base. A longer one is cut to what a name may take, and
/// begins as the base does.
pub proof fn lemma_child_names(base: Seq<char>, suffix: Seq<char>)
    requires
        can_name(base, suffix),
    ensures
        encode_utf8(base).len() + 1 + encode_utf8(suffix).len() <= 63 ==> child_name(base, suffix)
            == base + seq!['-'] + suffix,
        encode_utf8(base).len() + 1 + encode_utf8(suffix).len() > 63 ==> {
            &&& encode_utf8(child_name(base, suffix)).len() == 63
            &&& ends_in(child_name(base, suffix), seq!['-'] + short(base) + seq!['-'] + suffix)
            &&& encode_utf8(child_name(base, suffix)).take(53 - encode_utf8(suffix).len() as int)
                == encode_utf8(base).take(53 - encode_utf8(suffix).len() as int)
        },
{
    reveal_strlit("-");
    assert("-"@ =~= seq!['-']);
    is_ascii_chars_encode_utf8("-"@);
    lemma_chars_within_bytes("-"@);
    lemma_encode_concat(base, "-"@);
    lemma_encode_concat(base + "-"@, suffix);
    let r = child_name(base, suffix);
    if !fits_uncut(base, suffix) {
        let bytes = encode_utf8(base);
        let k = kept_bytes(base, suffix);
        let cut = bytes.take(k);
        let front = decode_utf8(cut);
        encode_utf8_valid_utf8(base);
        valid_utf8_split(bytes, k);
        assert(bytes.subrange(0, k) =~= cut);
        decode_utf8_encode_utf8(cut);
        lemma_short_hash_shape(base);
        lemma_hex_is_ascii((text_hash(base) & 0xffff_ffff) as nat, 8);
        is_ascii_chars_encode_utf8(short(base));
        lemma_encode_concat(front, "-"@);
        lemma_encode_concat(front + "-"@, short(base));
        lemma_encode_concat(front + "-"@ + short(base), "-"@);
        lemma_encode_concat(front + "-"@ + short(base) + "-"@, suffix);
        let tail = seq!['-'] + short(base) + seq!['-'] + suffix;
        assert(r =~= front + tail);
        lemma_what_an_end_is(front, tail, r);
        assert(encode_utf8(r).take(k) =~= cut);
    }
}

/// The snapshot, the staged claim and the group of one base never share a name.
pub proof fn lemma_children_differ(base: Seq<char>)
    requires
        can_name(base, "src"@),
        can_name(base, "snap"@),
        can_name(base, "grp"@),
    ensures
        child_name(base, "src"@) != child_name(base, "snap"@),
        child_name(base, "src"@) != child_name(base, "grp"@),
        child_name(base, "snap"@) != child_name(base, "grp"@),
{
    reveal_strlit("src");
    reveal_strlit("snap");
    reveal_strlit("grp");
    let (a, b, c) = (
        child_name(base, "src"@),
        child_name(base, "snap"@),
        child_name(base, "grp"@),
    );
    assert(a.last() == 'c');
    assert(b.last() == 'p' && b[b.len() - 2] == 'a');
    assert(c.last() == 'p' && c[c.len() - 2] == 'r');
}

/// What a snapshot is asked for: the claim that it is taken of, and the class, where one is
/// given.
pub proof fn lemma_what_a_snapshot_asks_for(claim: Seq<char>, class: Seq<char>)
    ensures
        child_of(
            child_of(child(snapshot_data(claim, Some(class)), "spec"@), "source"@),
            "persistentVolumeClaimName"@,
        ) == Some(Tree::Text(claim)),
        child_of(child(snapshot_data(claim, Some(class)), "spec"@), "volumeSnapshotClassName"@)
            == Some(Tree::Text(class)),
        child_of(
            child_of(child(snapshot_data(claim, None), "spec"@), "source"@),
            "persistentVolumeClaimName"@,
        ) == Some(Tree::Text(claim)),
        child_of(child(snapshot_data(claim, None), "spec"@), "volumeSnapshotClassName"@) is None,
{
    reveal_strlit("source");
    reveal_strlit("volumeSnapshotClassName");
    assert("source"@.len() != "volumeSnapshotClassName"@.len());
}

/// The size that a snapshot gives is its text, or its number as text; anything else gives
/// none.
pub proof fn lemma_sizes_that_are_given(status: Tree, size: Tree)
    ensures
        restore_size_of(None) is None,
        child(status, "restoreSize"@) is None ==> restore_size_of(Some(status)) is None,
        child(status, "restoreSize"@) == Some(size) ==> {
            &&& size matches Tree::Text(t) ==> restore_size_of(Some(status)) == Some(t)
            &&& size matches Tree::Number(JsonNumber::PosInt(n)) ==> (n <= 0x7fff_ffff_ffff_ffff
                ==> restore_size_of(Some(status)) == Some(decimal(n as nat)))
            &&& size is Bool || size is Null || size is Array || size is Object ==> restore_size_of(
                Some(status),
            ) is None
        },
{
}

/// What the operator makes carries its mark, and what it is.
pub proof fn lemma_marks(key: Seq<char>, value: Seq<char>)
    ensures
        made_labels(key, value).dom().contains(key) && made_labels(key, value)[key] == value,
        key != "app.kubernetes.io/managed-by"@ ==> made_labels(key, value).dom().contains(
            "app.kubernetes.io/managed-by"@,
        ) && made_labels(key, value)["app.kubernetes.io/managed-by"@] == "kopiur"@,
{
}

/// The words for the access modes and the copy methods.
pub proof fn lemma_words_for_copies()
    ensures
        mode_text(PvcAccessMode::ReadWriteOnce) == "ReadWriteOnce"@,
        mode_text(PvcAccessMode::ReadOnlyMany) == "ReadOnlyMany"@,
        mode_text(PvcAccessMode::ReadWriteMany) == "ReadWriteMany"@,
        mode_text(PvcAccessMode::ReadWriteOncePod) == "ReadWriteOncePod"@,
        method_text(CopyMethod::Snapshot) == "Snapshot"@,
        method_text(CopyMethod::Clone) == "Clone"@,
        method_text(CopyMethod::Direct) == "Direct"@,
{
}

/// What a waiting message says beside what is waited for: the error, where one was
/// reported, and until when, by the deadline itself and not by what is left.
pub proof fn lemma_what_a_wait_tells(error: Seq<char>, at: Moment, pending: Seq<char>)
    ensures
        error_clause(None) == ""@,
        ends_in(error_clause(Some(error)), error),
        deadline_clause(Some(at), pending) == "; staging fails at "@ + rfc3339_zulu_text(
            at.secs,
            at.nanos,
        ) + " if still "@ + pending,
        deadline_clause(None, pending) == "; waiting indefinitely (spec.staging.timeout: 0)"@,
        class_phrase(None) == "its StorageClass"@,
        class_phrase(Some(error)) == "StorageClass `"@ + error + "`"@,
{
    let front =
        "; it reported a possibly-transient error (the snapshot-controller retries automatically): "@;
    lemma_what_an_end_is(front, error, error_clause(Some(error)));
}

/// A message of a wait names what is waited for, and carries the error and the deadline.
pub proof fn lemma_what_a_waiting_message_holds(
    error: Option<Seq<char>>,
    created: Option<i64>,
    ns: Seq<char>,
    name: Seq<char>,
    class: Seq<char>,
    timeout: Option<Span>,
    now: Moment,
    phase: Option<Seq<char>>,
)
    requires
        !expired(timeout, created, now),
        phase != Some("Bound"@),
        phase != Some("Lost"@),
    ensures
        vs_wait(false, None, error, created, ns, name, class, timeout, now) == WaitView::Waiting(
            "waiting for VolumeSnapshot `"@ + ns + "/"@ + name + "` to become readyToUse"@
                + error_clause(error) + deadline_clause(deadline(timeout, created), "not ready"@),
        ),
        bind_wait(phase, created, ns, name, Some(class), timeout, now) == WaitView::Waiting(
            "waiting for staged PVC `"@ + ns + "/"@ + name + "` ("@ + class_phrase(Some(class))
                + ") to bind; the CSI restore/clone from the source is provisioning"@
                + deadline_clause(deadline(timeout, created), "unbound"@),
        ),
{
}

/// Which quantities can be read and held: a number within 128 bits with a sign, and then
/// the bytes that it stands for.
pub proof fn lemma_which_quantities_are_held(s: Seq<char>, q: Seq<char>)
    ensures
        small_integer(s) == (match integer_of(s) {
            Some(v) => if -0x8000_0000_0000_0000_0000_0000_0000_0000 <= v
                <= 0x7fff_ffff_ffff_ffff_ffff_ffff_ffff_ffff {
                Some(v)
            } else {
                None
            },
            None => None,
        }),
        quantity_fits(Some(q)) <==> (quantity_bytes(q) matches Some(v)
            ==> -0x8000_0000_0000_0000_0000_0000_0000_0000 <= v
            <= 0x7fff_ffff_ffff_ffff_ffff_ffff_ffff_ffff),
        forall|p: PersistentVolumeClaim| #[trigger]
            sized(p) <==> quantity_fits(
                match p.spec {
                    Some(spec) => opt_text(spec.storage_request),
                    None => None,
                },
            ),
{
}

/// Which names can be made: those that fit in 63 bytes as they are, and those whose base
/// can be cut between two characters where the rest still fits.
pub proof fn lemma_which_names_can_be_made(base: Seq<char>, suffix: Seq<char>)
    ensures
        encode_utf8(base).len() + 1 + encode_utf8(suffix).len() <= 63 ==> can_name(base, suffix),
        encode_utf8(base).len() + 1 + encode_utf8(suffix).len() > 63 ==> (can_name(base, suffix)
            <==> encode_utf8(suffix).len() <= 53 && is_char_boundary(
            encode_utf8(base),
            53 - encode_utf8(suffix).len(),
        )),
{
    reveal_strlit("-");
    is_ascii_chars_encode_utf8("-"@);
    lemma_chars_within_bytes("-"@);
    lemma_encode_concat(base, "-"@);
    lemma_encode_concat(base + "-"@, suffix);
}

/// What the messages of failed waits tell: what did not become usable, for how long it was
/// waited for, and the error, where one was reported.
pub proof fn lemma_what_failures_tell(
    e: Seq<char>,
    created: Option<i64>,
    ns: Seq<char>,
    name: Seq<char>,
    class: Seq<char>,
    timeout: Option<Span>,
    now: Moment,
    phase: Option<Seq<char>>,
)
    requires
        expired(timeout, created, now),
        phase != Some("Bound"@),
        phase != Some("Lost"@),
    ensures
        vs_wait(false, None, Some(e), created, ns, name, class, timeout, now) matches WaitView::Failed(
            _,
            m,
        ) && holds_text(
            m,
            "VolumeSnapshot `"@ + ns + "/"@ + name + "` did not become readyToUse within "@ + waited(
                timeout,
            ),
        ) && holds_text(m, e) && holds_text(m, class),
        vs_wait(false, None, None, created, ns, name, class, timeout, now) matches WaitView::Failed(
            _,
            m,
        ) && holds_text(
            m,
            "VolumeSnapshot `"@ + ns + "/"@ + name + "` did not become readyToUse within "@ + waited(
                timeout,
            ),
        ),
        bind_wait(phase, created, ns, name, Some(class), timeout, now) matches WaitView::Failed(_, m)
            && holds_text(
            m,
            "staged PVC `"@ + ns + "/"@ + name + "` did not reach Bound within "@ + waited(timeout),
        ) && holds_text(m, class_phrase(Some(class))),
        bind_wait(Some("Lost"@), created, ns, name, Some(class), timeout, now) matches
            WaitView::Failed(_, m) && holds_text(m, "staged PVC `"@ + ns + "/"@ + name),
{
    broadcast use lemma_holds_end, lemma_holds_on, lemma_holds_itself;

    reveal_strlit("Bound");
    reveal_strlit("Lost");
    assert("Bound"@.len() != "Lost"@.len());
}

/// What the refusal of a class tells: which class it is, and whose drivers differ.
pub proof fn lemma_what_a_refusal_tells(class: Seq<char>, op: Seq<char>, sp: Seq<char>)
    ensures
        preflight_fault(class, None, Some(sp)) matches Some(f) && holds_text(
            f.1,
            "spec.staging.storageClassName `"@ + class,
        ),
        op != sp ==> (preflight_fault(class, Some(op), Some(sp)) matches Some(f) && holds_text(
            f.1,
            "spec.staging.storageClassName `"@ + class + "` is provisioned by `"@ + op
                + "`, but the source PVC's CSI driver is `"@ + sp,
        )),
{
    broadcast use lemma_holds_end, lemma_holds_on, lemma_holds_itself;

}

/// What a wait and a choice say is what they carry.
pub proof fn lemma_what_waits_say(w: VsWait, b: PvcBindWait, d: ClassDecision)
    ensures
        w matches VsWait::Ready { restore_size } ==> w@ == WaitView::Ready(opt_text(restore_size)),
        w matches VsWait::Waiting(m) ==> w@ == WaitView::Waiting(m@),
        w matches VsWait::Failed { reason, message } ==> w@ == WaitView::Failed(reason@, message@),
        b is Bound ==> b@ == WaitView::Ready(None),
        b matches PvcBindWait::Waiting(m) ==> b@ == WaitView::Waiting(m@),
        b matches PvcBindWait::Failed { reason, message } ==> b@ == WaitView::Failed(
            reason@,
            message@,
        ),
        d matches ClassDecision::Use(n) ==> d@ == ClassDecisionView::Use(n@),
        d matches ClassDecision::ExplicitNotFound(n) ==> d@ == ClassDecisionView::ExplicitNotFound(n@),
        d matches ClassDecision::NoneForDriver(n) ==> d@ == ClassDecisionView::NoneForDriver(n@),
        d matches ClassDecision::Ambiguous { driver, candidates } ==> d@
            == ClassDecisionView::Ambiguous(driver@, texts(candidates@)),
{
}

} // verus!
