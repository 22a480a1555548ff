//! Credential Secrets of mover Jobs.
//!
//! A mover loads its credentials from Secrets of its own namespace. Those of a
//! shared repository live elsewhere: they are copied only where both the consumer
//! and the repository's owner agree, under a stable name that belongs to the
//! consumer, and never over a Secret that belongs to somebody else.
use vstd::prelude::*;
use vstd::string::*;
use vstd::utf8::*;

use crate::clock::{Moment, in_rfc3339, rfc3339_text};
use crate::consts::{
    COMPONENT_LABEL, CREDENTIAL_PROJECTION_FLAG, CREDS_COMPONENT, CREDS_SCOPE_CR,
    CREDS_SCOPE_LABEL, MANAGED_BY_LABEL, MANAGED_BY_VALUE, PROJECTED_AT_ANNOTATION,
    PROJECTED_FROM_ANNOTATION,
};
use crate::error::Error;
use crate::io::meta::{
    ObjectMeta, OwnerReference, controlling, controlling_owner, lemma_who_controls,
};
use crate::naming::{
    RepositoryKind, capped, capped_name, lemma_capped_fits, lemma_capped_tells_last_char,
    lemma_how_a_name_is_capped, text_hash,
};
use crate::strmap::{StringMap, opt_map, value_of};
use crate::text::{
    decimal, decimal_text, digit, hex, holds_text, lemma_digits_differ, lemma_hex,
    lemma_holds_end, lemma_holds_itself, lemma_holds_on, opt_str, opt_text, or_empty, same,
    texts,
};

verus! {

/// The highest index of a copy: a consumer has the Secret of the password and
/// at most one of the backend.
pub const MAX_CREDS_IDX: usize = 1;

/// What a message about credentials has to name.
pub struct CredsContext<'a> {
    /// The Secrets that the mover Job loads.
    pub secret_names: &'a [String],
    /// The kind of the repository.
    pub repo_kind: &'a str,
    /// The name of the repository.
    pub repo_name: &'a str,
    /// The namespace of the repository's Secret, where it is given.
    pub repo_secret_namespace: Option<&'a str>,
}

/// A credential Secret and the namespace that it is read from.
#[derive(Debug, Clone, PartialEq, Eq)]
pub struct CredsSecretRef {
    /// The Secret's name.
    pub name: String,
    /// Its namespace, where there is one.
    pub namespace: Option<String>,
}

/// An entry of a Job's environment that is loaded from a Secret.
#[derive(Debug, Clone, PartialEq, Eq)]
pub struct CredsEnvFrom {
    /// The Secret's name.
    pub secret: String,
    /// What the names of the variables are prefixed with.
    pub prefix: Option<String>,
}

/// The stable prefix of the names of one consumer's copies. It is made from the
/// consumer's name alone, so that recurring runs share their copies.
#[derive(Debug, Clone, PartialEq, Eq)]
pub struct CredsPrefix(String);

/// The Secret that is copied.
#[derive(Debug, Clone, PartialEq, Eq)]
pub struct SourceSecret {
    /// Its name.
    pub name: Option<String>,
    /// Its namespace.
    pub namespace: Option<String>,
    /// Its data.
    pub data: Option<Vec<(String, Vec<u8>)>>,
    /// Its data as text.
    pub string_data: Option<Vec<(String, String)>>,
    /// Its type.
    pub type_: Option<String>,
}

/// A copy of a Secret in the namespace of a mover Job.
#[derive(Debug, Clone, PartialEq, Eq)]
pub struct ProjectedSecret {
    /// Its name.
    pub name: String,
    /// Its namespace.
    pub namespace: String,
    /// Its labels.
    pub labels: StringMap,
    /// Its annotations.
    pub annotations: StringMap,
    /// Its owner.
    pub owner_reference: OwnerReference,
    /// Its data.
    pub data: Option<Vec<(String, Vec<u8>)>>,
    /// Its data as text.
    pub string_data: Option<Vec<(String, String)>>,
    /// Its type.
    pub type_: String,
    /// Whether it can be written again.
    pub immutable: Option<bool>,
}

/// Who holds the name of a copy.
#[derive(Debug)]
pub enum ProjectedOwnership<'a> {
    /// Nobody.
    Free,
    /// The consumer.
    OwnedBySelf,
    /// Somebody else, or nobody that controls it.
    OwnedByOther(Option<&'a OwnerReference>),
}

/// What came of removing one copy.
#[derive(Debug, Clone, Copy, PartialEq, Eq, Structural)]
pub enum ReapSignal {
    /// It is gone.
    Deleted,
    /// There was none.
    Absent,
    /// It is not the consumer's, or has changed.
    Kept,
    /// The API server could not be asked: it may still be there.
    Errored,
    /// The operator may not delete it.
    Forbidden,
}

/// What came of deleting a Secret that must not have changed.
#[derive(Debug, Clone, Copy, PartialEq, Eq, Structural)]
pub enum DeleteOutcome {
    /// It is gone.
    Deleted,
    /// It was gone or has changed.
    Spared,
    /// The operator may not delete it.
    Forbidden,
}

/// What removing all copies of a consumer did.
#[derive(Debug, Clone, Copy, PartialEq, Eq, Structural)]
pub struct ReapOutcome {
    /// How many were deleted.
    pub deleted: usize,
    /// Whether nothing of the consumer's is left.
    pub settled: bool,
}

/// Whether a Secret is copied into a foreign namespace.
#[derive(Debug, Clone, Copy, PartialEq, Eq, Structural)]
pub enum ProjectionDecision {
    /// It is.
    Project,
    /// It is not.
    Deny(ProjectionDenyReason),
}

/// Why a Secret is not copied.
#[derive(Debug, Clone, Copy, PartialEq, Eq, Structural)]
pub enum ProjectionDenyReason {
    /// The consumer did not ask for it.
    ConsumerNotOptedIn,
    /// The repository's owner did not allow it.
    OwnerNotAllowed,
}

/// The Secrets that a mover Job loads.
#[derive(Debug, Clone, PartialEq, Eq)]
pub struct MoverCreds {
    /// Their names, in order.
    pub names: Vec<String>,
    /// How many of them are copies.
    pub projected: u64,
}

/// How a credential Secret reaches the mover.
#[derive(Debug, Clone, Copy, PartialEq, Eq, Structural)]
pub enum CredsRoute {
    /// It is in the mover's namespace, or has to be put there by its user.
    InPlace,
    /// It is copied.
    Project,
    /// It is to be copied, and where from is not known.
    Unresolved,
    /// It would have to be copied, and may not be.
    Denied(ProjectionDenyReason),
}

/// What is awaited for the Secret at hand.
#[derive(Debug, Clone, Copy, PartialEq, Eq, Structural)]
pub enum CredsStage {
    /// Whether the Secret is in the mover's namespace.
    Presence,
    /// What holds the name of the copy.
    Target,
    /// Whether the source is there.
    Source,
    /// What came of applying the copy.
    Applied,
    /// Nothing more.
    Over,
}

/// What was found out.
#[derive(Debug)]
pub enum CredsEvent {
    /// Whether the Secret is in the mover's namespace.
    Presence(bool),
    /// The metadata of what holds the name of the copy.
    Target(Option<ObjectMeta>),
    /// Whether the source is there.
    Source(bool),
    /// The metadata of the copy that was applied.
    Applied(ObjectMeta),
    /// Applying the copy failed.
    Rejected(Error),
}

/// What is to be done next.
#[derive(Debug)]
pub enum CredsAction {
    /// Remove the consumer's copy of that name, then see whether the Secret is in
    /// the mover's namespace.
    Verify {
        /// The copy.
        copy: String,
        /// The Secret.
        secret: String,
    },
    /// See what holds the name of the copy.
    ReadTarget {
        /// The copy.
        copy: String,
    },
    /// Read the source.
    ReadSource {
        /// The source.
        secret: String,
        /// Its namespace.
        namespace: String,
    },
    /// Apply the copy of the source.
    Apply {
        /// The copy.
        copy: String,
    },
    /// All Secrets are settled.
    Done,
    /// The run cannot go on.
    Fail(Error),
}

/// What the settling of a mover's credential Secrets goes by.
pub struct CredsPlan<'a> {
    /// The Secrets.
    pub refs: &'a Vec<CredsSecretRef>,
    /// The mover's namespace.
    pub job_ns: &'a str,
    /// The prefix of the copies' names.
    pub prefix: &'a CredsPrefix,
    /// The consumer's unique id.
    pub owner_uid: &'a str,
    /// Whether the consumer asks for copies.
    pub consumer_enabled: bool,
    /// Whether the repository's owner allows copies.
    pub owner_allowed: bool,
    /// What messages have to name.
    pub ctx: &'a CredsContext<'a>,
}

/// The settling of a mover's credential Secrets, one after the other.
pub struct CredsRun<'a> {
    /// What it goes by.
    pub plan: CredsPlan<'a>,
    /// How many Secrets are settled.
    pub at: usize,
    /// What is awaited.
    pub stage: CredsStage,
    /// The names so far.
    pub names: Vec<String>,
    /// How many of them are copies.
    pub projected: u64,
}

impl View for CredsPrefix {
    type V = Seq<char>;

    closed spec fn view(&self) -> Seq<char> {
        self.0@
    }
}

/// The name of the copy with this index.
pub open spec fn copy_name(prefix: Seq<char>, idx: nat) -> Seq<char> {
    capped(prefix + "-creds-"@ + decimal(idx))
}

/// The text of a repository kind.
pub open spec fn kind_text(kind: RepositoryKind) -> Seq<char> {
    match kind {
        RepositoryKind::Repository => "Repository"@,
        RepositoryKind::ClusterRepository => "ClusterRepository"@,
    }
}

/// The message for a Secret that is missing from the mover's namespace.
pub open spec fn missing_text(secret: Seq<char>, job_ns: Seq<char>, ctx: CredsContext) -> Seq<char> {
    let front = "credentials Secret `"@ + secret + "` does not exist in namespace `"@ + job_ns
        + "`, where the mover Job runs and loads it via envFrom — envFrom is namespace-local and cannot read a Secret from another namespace."@;
    match opt_str(ctx.repo_secret_namespace) {
        Some(src) => if src != job_ns {
            front + " The "@ + ctx.repo_kind@ + " `"@ + ctx.repo_name@
                + "` keeps that Secret in namespace `"@ + src + "`. Fix: create a Secret `"@
                + secret + "` in `"@ + job_ns
                + "` with the same keys (e.g. `KOPIA_PASSWORD`, plus backend keys like `AWS_ACCESS_KEY_ID`/`AWS_SECRET_ACCESS_KEY`), or use a namespaced Repository whose secret lives in `"@
                + job_ns + "`."@
        } else {
            front + missing_here(secret, job_ns, ctx)
        },
        None => front + missing_here(secret, job_ns, ctx),
    }
}

/// The part of that message for a Secret that belongs into the mover's namespace.
pub open spec fn missing_here(secret: Seq<char>, job_ns: Seq<char>, ctx: CredsContext) -> Seq<char> {
    " The "@ + ctx.repo_kind@ + " `"@ + ctx.repo_name@ + "` references it from namespace `"@
        + job_ns + "`. Fix: create a Secret `"@ + secret + "` in `"@ + job_ns
        + "` with the repository credentials (e.g. `KOPIA_PASSWORD`, plus any backend keys)."@
}

/// The message for the name of a copy that somebody else holds.
pub open spec fn conflict_text(
    copy: Seq<char>,
    job_ns: Seq<char>,
    holder: Option<OwnerReference>,
    ctx: CredsContext,
) -> Seq<char> {
    let who = match holder {
        Some(r) => "it is controlled by "@ + r.kind@ + " `"@ + r.name@ + "`"@,
        None =>
        "it carries no kopiur controller ownerReference, so it is not managed by kopiur (likely user-created)"@,
    };
    "credential projection blocked for "@ + ctx.repo_kind@ + " `"@ + ctx.repo_name@
        + "`: target Secret `"@ + copy + "` in namespace `"@ + job_ns + "` already exists and "@
        + who
        + ", and overwriting it would hand one consumer another owner's (or the user's) Secret. Fix: rename one of the colliding resources, or delete the conflicting Secret if it is stale."@
}

/// The message for a Secret that may not be copied.
pub open spec fn denied_text(
    secret: Seq<char>,
    src_ns: Seq<char>,
    job_ns: Seq<char>,
    reason: ProjectionDenyReason,
    ctx: CredsContext,
) -> Seq<char> {
    let why = match reason {
        ProjectionDenyReason::ConsumerNotOptedIn =>
        "the consumer has not opted in to credential projection"@,
        ProjectionDenyReason::OwnerNotAllowed =>
        "the ClusterRepository owner has not allowed credential projection"@,
    };
    let fix = match reason {
        ProjectionDenyReason::ConsumerNotOptedIn =>
        "set `spec.credentialProjection.enabled: true` on this SnapshotPolicy/Restore (owner must also set `credentialProjection.allowed: true`), or create the Secret in the mover namespace yourself"@,
        ProjectionDenyReason::OwnerNotAllowed =>
        "ask the repository owner to set `credentialProjection.allowed: true` on the ClusterRepository, or create the Secret in the mover namespace yourself"@,
    };
    "cross-namespace credential projection denied for `"@ + secret + "`: it lives in `"@ + src_ns
        + "` but the mover Job runs in `"@ + job_ns + "`, and "@ + why + ". Source: "@
        + ctx.repo_kind@ + " `"@ + ctx.repo_name@ + "`. Fix: "@ + fix + "."@
}

/// The message for a Secret to copy from nobody knows where.
pub open spec fn unresolved_text(secret: Seq<char>, ctx: CredsContext) -> Seq<char> {
    "credential Secret `"@ + secret + "` for "@ + ctx.repo_kind@ + " `"@ + ctx.repo_name@
        + "` has no resolvable source namespace, so projection cannot read it to copy into the mover Job's namespace. Fix: set an explicit `namespace` on the Secret reference (a "@
        + ctx.repo_kind@
        + " reference must pin one), or disable `spec.credentialProjection` and manage the Secret in each mover namespace yourself."@
}

/// The message for a Secret that is not where it is to be copied from.
pub open spec fn source_missing_text(
    secret: Seq<char>,
    src_ns: Seq<char>,
    job_ns: Seq<char>,
    ctx: CredsContext,
) -> Seq<char> {
    "credential Secret `"@ + secret + "` not found in source namespace `"@ + src_ns + "`, so "@
        + ctx.repo_kind@ + " `"@ + ctx.repo_name@ + "` cannot project it into `"@ + job_ns
        + "` where the mover Job runs. Fix: create Secret `"@ + secret + "` in `"@ + src_ns
        + "` with the repository credentials (e.g. `KOPIA_PASSWORD`, plus backend keys like `AWS_ACCESS_KEY_ID`/`AWS_SECRET_ACCESS_KEY`)."@
}

/// The message for a copy that the operator may not write.
pub open spec fn forbidden_text(copy: Seq<char>, job_ns: Seq<char>) -> Seq<char> {
    "the operator is not permitted to write the projected credentials Secret `"@ + copy
        + "` in namespace `"@ + job_ns
        + "` (HTTP 403). Credential projection needs cluster-wide `secrets` create/patch RBAC. Fix: set `"@
        + CREDENTIAL_PROJECTION_FLAG@
        + ": true` in the Helm chart (grants the operator ClusterRole those verbs), or disable `spec.credentialProjection` on the repository and manage the Secret in `"@
        + job_ns + "`."@
}

/// What data says.
pub open spec fn data_view(data: Option<Vec<(String, Vec<u8>)>>) -> Option<
    Seq<(Seq<char>, Seq<u8>)>,
> {
    match data {
        Some(v) => Some(v@.map_values(|e: (String, Vec<u8>)| (e.0@, e.1@))),
        None => None,
    }
}

/// What textual data says.
pub open spec fn string_data_view(data: Option<Vec<(String, String)>>) -> Option<
    Seq<(Seq<char>, Seq<char>)>,
> {
    match data {
        Some(v) => Some(v@.map_values(|e: (String, String)| (e.0@, e.1@))),
        None => None,
    }
}

/// Whether an ownership is the one that the metadata shows.
pub open spec fn ownership_is(
    o: ProjectedOwnership,
    existing: Option<ObjectMeta>,
    owner_uid: Seq<char>,
) -> bool {
    match existing {
        None => o is Free,
        Some(meta) => match controlling(meta.owner_references@) {
            Some(r) => if r.uid@ == owner_uid {
                o is OwnedBySelf
            } else {
                o matches ProjectedOwnership::OwnedByOther(Some(h)) && *h == r
            },
            None => o matches ProjectedOwnership::OwnedByOther(None),
        },
    }
}

/// Whether the consumer controls an object with this metadata.
pub open spec fn own(meta: ObjectMeta, owner_uid: Seq<char>) -> bool {
    controlling(meta.owner_references@) matches Some(r) && r.uid@ == owner_uid
}

/// Whether an object with this metadata is a copy that the consumer may delete.
pub open spec fn reapable(meta: ObjectMeta, owner_uid: Seq<char>) -> bool {
    value_of(opt_map(meta.labels), CREDS_SCOPE_LABEL@) == Some(CREDS_SCOPE_CR@) && own(
        meta,
        owner_uid,
    )
}

/// Whether a Secret is copied.
pub open spec fn decision(consumer_enabled: bool, owner_allowed: bool) -> ProjectionDecision {
    if !consumer_enabled {
        ProjectionDecision::Deny(ProjectionDenyReason::ConsumerNotOptedIn)
    } else if !owner_allowed {
        ProjectionDecision::Deny(ProjectionDenyReason::OwnerNotAllowed)
    } else {
        ProjectionDecision::Project
    }
}

/// How a Secret reaches the mover.
pub open spec fn route(
    r: CredsSecretRef,
    job_ns: Seq<char>,
    consumer_enabled: bool,
    owner_allowed: bool,
) -> CredsRoute {
    match opt_text(r.namespace) {
        None => if consumer_enabled {
            CredsRoute::Unresolved
        } else {
            CredsRoute::InPlace
        },
        Some(ns) => if ns == job_ns || !consumer_enabled {
            CredsRoute::InPlace
        } else {
            match decision(consumer_enabled, owner_allowed) {
                ProjectionDecision::Project => CredsRoute::Project,
                ProjectionDecision::Deny(reason) => CredsRoute::Denied(reason),
            }
        },
    }
}

/// The text of the error that a run fails with.
pub open spec fn fails_with(action: CredsAction, message: Seq<char>) -> bool {
    action matches CredsAction::Fail(e) && e is MissingDependency && e.text() == message
}

/// The message for a Secret that is missing from the mover's namespace: what is
/// missing, why it is needed there, and how to mend it.
pub fn missing_creds_message(secret: &str, job_ns: &str, ctx: &CredsContext) -> (r: String)
    ensures
        r@ == missing_text(secret@, job_ns@, *ctx),
{
    let mut m = "credentials Secret `".to_owned();
    m.append(secret);
    m.append("` does not exist in namespace `");
    m.append(job_ns);
    m.append(
        "`, where the mover Job runs and loads it via envFrom — envFrom is namespace-local and cannot read a Secret from another namespace.",
    );
    let ghost front = m@;
    let elsewhere: Option<&str> = match ctx.repo_secret_namespace {
        Some(src) => if same(src, job_ns) {
            None
        } else {
            Some(src)
        },
        None => None,
    };
    match elsewhere {
        Some(src) => {
            m.append(" The ");
            m.append(ctx.repo_kind);
            m.append(" `");
            m.append(ctx.repo_name);
            m.append("` keeps that Secret in namespace `");
            m.append(src);
            m.append("`. Fix: create a Secret `");
            m.append(secret);
            m.append("` in `");
            m.append(job_ns);
            m.append(
                "` with the same keys (e.g. `KOPIA_PASSWORD`, plus backend keys like `AWS_ACCESS_KEY_ID`/`AWS_SECRET_ACCESS_KEY`), or use a namespaced Repository whose secret lives in `",
            );
            m.append(job_ns);
            m.append("`.");
        },
        None => {
            let mut tail = " The ".to_owned();
            tail.append(ctx.repo_kind);
            tail.append(" `");
            tail.append(ctx.repo_name);
            tail.append("` references it from namespace `");
            tail.append(job_ns);
            tail.append("`. Fix: create a Secret `");
            tail.append(secret);
            tail.append("` in `");
            tail.append(job_ns);
            tail.append(
                "` with the repository credentials (e.g. `KOPIA_PASSWORD`, plus any backend keys).",
            );
            m.append(tail.as_str());
        },
    }
    m
}

/// The text of a repository kind.
pub fn repo_kind_str(kind: RepositoryKind) -> (r: &'static str)
    ensures
        r@ == kind_text(kind),
{
    match kind {
        RepositoryKind::Repository => "Repository",
        RepositoryKind::ClusterRepository => "ClusterRepository",
    }
}

/// The message for the first Secret that is missing, from which Secrets were
/// found in the mover's namespace, looked for in order.
pub fn first_missing_cred(ctx: &CredsContext, job_ns: &str, found: &Vec<bool>) -> (r: Option<String>)
    requires
        found@.len() <= ctx.secret_names@.len(),
    ensures
        match r {
            None => forall|i: int| 0 <= i < found@.len() ==> found@[i],
            Some(m) => exists|i: int|
                0 <= i < found@.len() && !(#[trigger] found@[i]) && (forall|j: int|
                    0 <= j < i ==> found@[j]) && m@ == missing_text(
                    ctx.secret_names@[i]@,
                    job_ns@,
                    *ctx,
                ),
        },
{
    let mut i: usize = 0;
    while i < found.len()
        invariant
            i <= found@.len(),
            found@.len() <= ctx.secret_names@.len(),
            forall|j: int| 0 <= j < i ==> found@[j],
        decreases found@.len() - i,
    {
        if !found[i] {
            return Some(missing_creds_message(ctx.secret_names[i].as_str(), job_ns, ctx));
        }
        i += 1;
    }
    None
}

/// Whether all Secrets that were looked for are there; if not, the error that
/// names the first that is missing.
pub fn ensure_creds_present(ctx: &CredsContext, job_ns: &str, found: &Vec<bool>) -> (r: Result<
    (),
    Error,
>)
    requires
        found@.len() <= ctx.secret_names@.len(),
    ensures
        r is Ok <==> forall|i: int| 0 <= i < found@.len() ==> found@[i],
        r matches Err(e) ==> e is MissingDependency && exists|i: int|
            0 <= i < found@.len() && !(#[trigger] found@[i]) && (forall|j: int|
                0 <= j < i ==> found@[j]) && e.text() == missing_text(
                ctx.secret_names@[i]@,
                job_ns@,
                *ctx,
            ),
{
    match first_missing_cred(ctx, job_ns, found) {
        Some(m) => Err(Error::MissingDependency(m)),
        None => Ok(()),
    }
}

impl CredsPrefix {
    fn with_slug(name: &str, slug: &str) -> (r: Self)
        ensures
            r@ == name@ + slug@,
    {
        let mut out = name.to_owned();
        out.append(slug);
        CredsPrefix(out)
    }

    /// Of the backup of a `Snapshot`: its bare name.
    pub fn snapshot_backup(cr: &str) -> (r: Self)
        ensures
            r@ == cr@,
    {
        CredsPrefix(cr.to_owned())
    }

    /// Of a `Restore`.
    pub fn restore(cr: &str) -> (r: Self)
        ensures
            r@ == cr@ + "-restore"@,
    {
        CredsPrefix::with_slug(cr, "-restore")
    }

    /// Of pinning a `Snapshot`.
    pub fn snapshot_pin(cr: &str) -> (r: Self)
        ensures
            r@ == cr@ + "-pin"@,
    {
        CredsPrefix::with_slug(cr, "-pin")
    }

    /// Of the batched deletion of snapshots: the Job's bare name.
    pub fn snapshot_delete_batch(job: &str) -> (r: Self)
        ensures
            r@ == job@,
    {
        CredsPrefix(job.to_owned())
    }

    /// Of a `Maintenance`, whatever its runs are.
    pub fn maintenance(cr: &str) -> (r: Self)
        ensures
            r@ == cr@ + "-maint"@,
    {
        CredsPrefix::with_slug(cr, "-maint")
    }

    /// Of verifying a `SnapshotPolicy` with one repository.
    pub fn verification(policy: &str) -> (r: Self)
        ensures
            r@ == policy@ + "-vfy"@,
    {
        CredsPrefix::with_slug(policy, "-vfy")
    }

    /// Of verifying one repository of a `SnapshotPolicy` with several.
    pub fn verification_for_repo(policy: &str, repo6: &str) -> (r: Self)
        ensures
            r@ == policy@ + "-vfy-"@ + repo6@,
    {
        let mut out = policy.to_owned();
        out.append("-vfy-");
        out.append(repo6);
        CredsPrefix(out)
    }

    /// Of a `RepositoryReplication`.
    pub fn replication(cr: &str) -> (r: Self)
        ensures
            r@ == cr@ + "-repl"@,
    {
        CredsPrefix::with_slug(cr, "-repl")
    }

    /// Of the bootstrap of a `Repository`.
    pub fn bootstrap(repo: &str) -> (r: Self)
        ensures
            r@ == repo@ + "-bootstrap"@,
    {
        CredsPrefix::with_slug(repo, "-bootstrap")
    }

    /// Of the source that a bootstrap is seeded from.
    pub fn seed(repo: &str) -> (r: Self)
        ensures
            r@ == repo@ + "-seed"@,
    {
        CredsPrefix::with_slug(repo, "-seed")
    }

    /// Of the source side of a `SnapshotReplication`.
    pub fn snapshot_replication_src(cr: &str) -> (r: Self)
        ensures
            r@ == cr@ + "-srepl-src"@,
    {
        CredsPrefix::with_slug(cr, "-srepl-src")
    }

    /// Of the destination side of a `SnapshotReplication`.
    pub fn snapshot_replication_dst(cr: &str) -> (r: Self)
        ensures
            r@ == cr@ + "-srepl-dst"@,
    {
        CredsPrefix::with_slug(cr, "-srepl-dst")
    }

    /// The name of the copy of the Secret with this index, short enough for a
    /// DNS label.
    pub fn secret_name(&self, idx: usize) -> (r: String)
        ensures
            r@ == copy_name(self@, idx as nat),
    {
        let mut out = self.0.clone();
        out.append("-creds-");
        let number = decimal_text(idx as u64);
        out.append(number.as_str());
        capped_name(out.as_str())
    }
}

/// The names of all copies that a consumer may have: those to look at when every
/// copy is to go.
pub fn projection_names(prefix: &CredsPrefix) -> (r: Vec<String>)
    ensures
        texts(r@) == Seq::new(MAX_CREDS_IDX as nat + 1, |i: int| copy_name(prefix@, i as nat)),
{
    let ghost all = Seq::new(MAX_CREDS_IDX as nat + 1, |i: int| copy_name(prefix@, i as nat));
    let mut out: Vec<String> = Vec::new();
    let mut idx: usize = 0;
    assert(texts(out@) =~= all.take(0));
    while idx <= MAX_CREDS_IDX
        invariant
            idx <= MAX_CREDS_IDX + 1,
            all == Seq::new(MAX_CREDS_IDX as nat + 1, |i: int| copy_name(prefix@, i as nat)),
            texts(out@) == all.take(idx as int),
        decreases MAX_CREDS_IDX + 1 - idx,
    {
        let ghost before = texts(out@);
        out.push(prefix.secret_name(idx));
        assert(texts(out@) =~= before.push(all[idx as int]));
        assert(all.take(idx + 1) =~= all.take(idx as int).push(all[idx as int]));
        idx = idx + 1;
    }
    assert(all.take(idx as int) =~= all);
    out
}

fn copy_data(data: &Option<Vec<(String, Vec<u8>)>>) -> (r: Option<Vec<(String, Vec<u8>)>>)
    ensures
        data_view(r) == data_view(*data),
{
    match data {
        None => None,
        Some(v) => {
            let mut out: Vec<(String, Vec<u8>)> = Vec::new();
            let mut i: usize = 0;
            while i < v.len()
                invariant
                    i <= v@.len(),
                    out@.len() == i,
                    forall|j: int|
                        0 <= j < i ==> (#[trigger] out@[j]).0@ == v@[j].0@ && out@[j].1@
                            == v@[j].1@,
                decreases v@.len() - i,
            {
                let bytes = v[i].1.clone();
                assert(bytes@ =~= v@[i as int].1@);
                out.push((v[i].0.clone(), bytes));
                i += 1;
            }
            assert(data_view(Some(out))->0 =~= data_view(*data)->0);
            Some(out)
        },
    }
}

fn copy_string_data(data: &Option<Vec<(String, String)>>) -> (r: Option<Vec<(String, String)>>)
    ensures
        string_data_view(r) == string_data_view(*data),
{
    match data {
        None => None,
        Some(v) => {
            let mut out: Vec<(String, String)> = Vec::new();
            let mut i: usize = 0;
            while i < v.len()
                invariant
                    i <= v@.len(),
                    out@.len() == i,
                    forall|j: int|
                        0 <= j < i ==> (#[trigger] out@[j]).0@ == v@[j].0@ && out@[j].1@
                            == v@[j].1@,
                decreases v@.len() - i,
            {
                out.push((v[i].0.clone(), v[i].1.clone()));
                i += 1;
            }
            assert(string_data_view(Some(out))->0 =~= string_data_view(*data)->0);
            Some(out)
        },
    }
}

/// The labels of a copy.
pub open spec fn copy_labels() -> Map<Seq<char>, Seq<char>> {
    Map::<Seq<char>, Seq<char>>::empty().insert(MANAGED_BY_LABEL@, MANAGED_BY_VALUE@).insert(
        COMPONENT_LABEL@,
        CREDS_COMPONENT@,
    ).insert(CREDS_SCOPE_LABEL@, CREDS_SCOPE_CR@)
}

/// The annotations of a copy.
pub open spec fn copy_annotations(
    src_namespace: Option<String>,
    src_name: Option<String>,
    now: Moment,
) -> Map<Seq<char>, Seq<char>> {
    Map::<Seq<char>, Seq<char>>::empty().insert(
        PROJECTED_FROM_ANNOTATION@,
        or_empty(src_namespace) + "/"@ + or_empty(src_name),
    ).insert(PROJECTED_AT_ANNOTATION@, rfc3339_text(now.secs, now.nanos))
}

/// The copy of a Secret for a mover's namespace. Its data and type are those of
/// the source, it belongs to the consumer, it can be written again, and it carries
/// the time, so that copying again is always a change.
pub fn build_projected_secret(
    name: &str,
    job_ns: &str,
    owner: OwnerReference,
    src: &SourceSecret,
    now: Moment,
) -> (r: ProjectedSecret)
    requires
        now.valid(),
    ensures
        r.name@ == name@,
        r.namespace@ == job_ns@,
        r.labels@ == copy_labels(),
        r.annotations@ == copy_annotations(src.namespace, src.name, now),
        in_rfc3339(now.secs as int) ==> now.reads_back(),
        r.owner_reference == owner,
        data_view(r.data) == data_view(src.data),
        string_data_view(r.string_data) == string_data_view(src.string_data),
        r.type_@ == match src.type_ {
            Some(t) => t@,
            None => "Opaque"@,
        },
        r.immutable is None,
{
    let mut labels = StringMap::new();
    labels.insert(MANAGED_BY_LABEL, MANAGED_BY_VALUE);
    labels.insert(COMPONENT_LABEL, CREDS_COMPONENT);
    labels.insert(CREDS_SCOPE_LABEL, CREDS_SCOPE_CR);
    let mut from = match &src.namespace {
        Some(ns) => ns.clone(),
        None => "".to_owned(),
    };
    from.append("/");
    match &src.name {
        Some(n) => from.append(n.as_str()),
        None => from.append(""),
    }
    let at = now.to_rfc3339();
    let mut annotations = StringMap::new();
    annotations.insert(PROJECTED_FROM_ANNOTATION, from.as_str());
    annotations.insert(PROJECTED_AT_ANNOTATION, at.as_str());
    ProjectedSecret {
        name: name.to_owned(),
        namespace: job_ns.to_owned(),
        labels,
        annotations,
        owner_reference: owner,
        data: copy_data(&src.data),
        string_data: copy_string_data(&src.string_data),
        type_: match &src.type_ {
            Some(t) => t.clone(),
            None => "Opaque".to_owned(),
        },
        immutable: None,
    }
}

/// Who holds the name of a copy, from the metadata of what has that name. A
/// Secret that nobody controls is somebody else's too.
pub fn projected_ownership<'a>(existing: Option<&'a ObjectMeta>, owner_uid: &str) -> (r:
    ProjectedOwnership<'a>)
    ensures
        ownership_is(
            r,
            match existing {
                Some(m) => Some(*m),
                None => None,
            },
            owner_uid@,
        ),
{
    match existing {
        None => ProjectedOwnership::Free,
        Some(meta) => match controlling_owner(&meta.owner_references) {
            Some(r) => if same(r.uid.as_str(), owner_uid) {
                ProjectedOwnership::OwnedBySelf
            } else {
                ProjectedOwnership::OwnedByOther(Some(r))
            },
            None => ProjectedOwnership::OwnedByOther(None),
        },
    }
}

/// The message for the name of a copy that somebody else holds.
pub fn projection_name_conflict_message(
    proj_name: &str,
    job_ns: &str,
    existing: Option<&OwnerReference>,
    ctx: &CredsContext,
) -> (r: String)
    ensures
        r@ == conflict_text(
            proj_name@,
            job_ns@,
            match existing {
                Some(h) => Some(*h),
                None => None,
            },
            *ctx,
        ),
{
    let holder: String = match existing {
        Some(h) => {
            let mut w = "it is controlled by ".to_owned();
            w.append(h.kind.as_str());
            w.append(" `");
            w.append(h.name.as_str());
            w.append("`");
            w
        },
        None =>
        "it carries no kopiur controller ownerReference, so it is not managed by kopiur (likely user-created)".to_owned(),
    };
    let mut m = "credential projection blocked for ".to_owned();
    m.append(ctx.repo_kind);
    m.append(" `");
    m.append(ctx.repo_name);
    m.append("`: target Secret `");
    m.append(proj_name);
    m.append("` in namespace `");
    m.append(job_ns);
    m.append("` already exists and ");
    m.append(holder.as_str());
    m.append(
        ", and overwriting it would hand one consumer another owner's (or the user's) Secret. Fix: rename one of the colliding resources, or delete the conflicting Secret if it is stale.",
    );
    m
}

/// Whether a Secret is a copy of the consumer's that may be deleted: it carries
/// the marker of such copies, and the consumer controls it.
pub fn is_reapable_projected_copy(meta: &ObjectMeta, owner_uid: &str) -> (r: bool)
    ensures
        r == reapable(*meta, owner_uid@),
{
    let marked = match &meta.labels {
        Some(l) => match l.get(CREDS_SCOPE_LABEL) {
            Some(v) => same(v.as_str(), CREDS_SCOPE_CR),
            None => false,
        },
        None => false,
    };
    if !marked {
        return false;
    }
    match projected_ownership(Some(meta), owner_uid) {
        ProjectedOwnership::OwnedBySelf => true,
        _ => false,
    }
}

/// What is known of a copy before it is deleted: nothing where it is to be
/// deleted, and otherwise why it is not.
pub fn reap_precheck(existing: Option<&ObjectMeta>, owner_uid: &str) -> (r: Option<ReapSignal>)
    ensures
        r == match existing {
            None => Some(ReapSignal::Absent),
            Some(m) => if reapable(*m, owner_uid@) {
                None
            } else {
                Some(ReapSignal::Kept)
            },
        },
{
    match existing {
        None => Some(ReapSignal::Absent),
        Some(m) => if is_reapable_projected_copy(m, owner_uid) {
            None
        } else {
            Some(ReapSignal::Kept)
        },
    }
}

/// What came of deleting a copy that was seen before: one that is gone or has
/// changed since is spared.
pub fn delete_outcome(answer: Result<(), Error>) -> (r: Result<DeleteOutcome, Error>)
    ensures
        match answer {
            Ok(_) => r == Ok::<DeleteOutcome, Error>(DeleteOutcome::Deleted),
            Err(Error::Kube { code: Some(404), .. }) => r == Ok::<DeleteOutcome, Error>(
                DeleteOutcome::Spared,
            ),
            Err(Error::Kube { code: Some(409), .. }) => r == Ok::<DeleteOutcome, Error>(
                DeleteOutcome::Spared,
            ),
            Err(Error::Kube { code: Some(403), .. }) => r == Ok::<DeleteOutcome, Error>(
                DeleteOutcome::Forbidden,
            ),
            Err(e) => r == Err::<DeleteOutcome, Error>(e),
        },
{
    match answer {
        Ok(_) => Ok(DeleteOutcome::Deleted),
        Err(Error::Kube { code: Some(404), .. }) => Ok(DeleteOutcome::Spared),
        Err(Error::Kube { code: Some(409), .. }) => Ok(DeleteOutcome::Spared),
        Err(Error::Kube { code: Some(403), .. }) => Ok(DeleteOutcome::Forbidden),
        Err(e) => Err(e),
    }
}

/// What the deletion of a copy says about it. One that changed meanwhile is kept.
pub fn reap_signal(outcome: DeleteOutcome) -> (r: ReapSignal)
    ensures
        r == match outcome {
            DeleteOutcome::Deleted => ReapSignal::Deleted,
            DeleteOutcome::Spared => ReapSignal::Kept,
            DeleteOutcome::Forbidden => ReapSignal::Forbidden,
        },
{
    match outcome {
        DeleteOutcome::Deleted => ReapSignal::Deleted,
        DeleteOutcome::Spared => ReapSignal::Kept,
        DeleteOutcome::Forbidden => ReapSignal::Forbidden,
    }
}

/// Whether the walk over the copies behind the live ones goes on after this one.
pub fn shrink_walk_goes_on(signal: ReapSignal) -> (r: bool)
    ensures
        r == (signal == ReapSignal::Deleted),
{
    match signal {
        ReapSignal::Deleted => true,
        ReapSignal::Absent | ReapSignal::Kept | ReapSignal::Errored | ReapSignal::Forbidden => false,
    }
}

/// Whether no copy can exist from this index on.
pub fn shrink_walk_is_vacuous(start_idx: usize) -> (r: bool)
    ensures
        r == (start_idx > MAX_CREDS_IDX),
{
    start_idx > MAX_CREDS_IDX
}

/// How many of the signals say that a copy is gone.
pub open spec fn deleted_count(signals: Seq<ReapSignal>) -> nat
    decreases signals.len(),
{
    if signals.len() == 0 {
        0
    } else {
        deleted_count(signals.drop_last()) + if signals.last() == ReapSignal::Deleted {
            1nat
        } else {
            0nat
        }
    }
}

/// What removing all copies did, from what came of each. It is settled only
/// where no copy was out of reach.
pub fn reap_outcome(signals: &Vec<ReapSignal>) -> (r: ReapOutcome)
    ensures
        r.deleted == deleted_count(signals@),
        r.settled == forall|i: int|
            0 <= i < signals@.len() ==> #[trigger] signals@[i] != ReapSignal::Forbidden
                && signals@[i] != ReapSignal::Errored,
{
    let mut out = ReapOutcome { deleted: 0, settled: true };
    let mut i: usize = 0;
    assert(signals@.take(0) =~= Seq::empty());
    while i < signals.len()
        invariant
            i <= signals@.len(),
            out.deleted == deleted_count(signals@.take(i as int)),
            out.deleted <= i,
            out.settled == forall|j: int|
                0 <= j < i ==> #[trigger] signals@[j] != ReapSignal::Forbidden && signals@[j]
                    != ReapSignal::Errored,
        decreases signals@.len() - i,
    {
        assert(signals@.take(i + 1).drop_last() =~= signals@.take(i as int));
        match signals[i] {
            ReapSignal::Deleted => {
                out.deleted = out.deleted + 1;
            },
            ReapSignal::Absent | ReapSignal::Kept => {},
            ReapSignal::Forbidden | ReapSignal::Errored => {
                out.settled = false;
            },
        }
        i += 1;
    }
    assert(signals@.take(i as int) =~= signals@);
    out
}

/// Whether a Secret is copied into a foreign namespace: only where the consumer
/// asks for it and the repository's owner allows it.
pub fn projection_decision(consumer_enabled: bool, owner_allowed: bool) -> (r: ProjectionDecision)
    ensures
        r == decision(consumer_enabled, owner_allowed),
{
    match (consumer_enabled, owner_allowed) {
        (true, true) => ProjectionDecision::Project,
        (false, _) => ProjectionDecision::Deny(ProjectionDenyReason::ConsumerNotOptedIn),
        (true, false) => ProjectionDecision::Deny(ProjectionDenyReason::OwnerNotAllowed),
    }
}

/// The Secrets as entries of an environment, the names of their variables left
/// as they are.
pub fn plain_creds(names: Vec<String>) -> (r: Vec<CredsEnvFrom>)
    ensures
        r@.len() == names@.len(),
        forall|i: int|
            0 <= i < names@.len() ==> (#[trigger] r@[i]).secret@ == names@[i]@ && r@[i].prefix
                is None,
{
    let mut out: Vec<CredsEnvFrom> = Vec::new();
    let mut i: usize = 0;
    while i < names.len()
        invariant
            i <= names@.len(),
            out@.len() == i,
            forall|j: int|
                0 <= j < i ==> (#[trigger] out@[j]).secret@ == names@[j]@ && out@[j].prefix is None,
        decreases names@.len() - i,
    {
        out.push(CredsEnvFrom { secret: names[i].clone(), prefix: None });
        i += 1;
    }
    out
}

/// The message for a Secret that may not be copied: which gate is closed, and
/// how to open it.
pub fn projection_denied_message(
    secret: &str,
    src_ns: &str,
    job_ns: &str,
    reason: ProjectionDenyReason,
    ctx: &CredsContext,
) -> (r: String)
    ensures
        r@ == denied_text(secret@, src_ns@, job_ns@, reason, *ctx),
{
    let (why, fix): (&str, &str) = match reason {
        ProjectionDenyReason::ConsumerNotOptedIn => (
            "the consumer has not opted in to credential projection",
            "set `spec.credentialProjection.enabled: true` on this SnapshotPolicy/Restore (owner must also set `credentialProjection.allowed: true`), or create the Secret in the mover namespace yourself",
        ),
        ProjectionDenyReason::OwnerNotAllowed => (
            "the ClusterRepository owner has not allowed credential projection",
            "ask the repository owner to set `credentialProjection.allowed: true` on the ClusterRepository, or create the Secret in the mover namespace yourself",
        ),
    };
    let mut m = "cross-namespace credential projection denied for `".to_owned();
    m.append(secret);
    m.append("`: it lives in `");
    m.append(src_ns);
    m.append("` but the mover Job runs in `");
    m.append(job_ns);
    m.append("`, and ");
    m.append(why);
    m.append(". Source: ");
    m.append(ctx.repo_kind);
    m.append(" `");
    m.append(ctx.repo_name);
    m.append("`. Fix: ");
    m.append(fix);
    m.append(".");
    m
}

/// The message for a Secret to copy whose namespace is not known.
pub fn projection_unresolved_ns_message(secret: &str, ctx: &CredsContext) -> (r: String)
    ensures
        r@ == unresolved_text(secret@, *ctx),
{
    let mut m = "credential Secret `".to_owned();
    m.append(secret);
    m.append("` for ");
    m.append(ctx.repo_kind);
    m.append(" `");
    m.append(ctx.repo_name);
    m.append(
        "` has no resolvable source namespace, so projection cannot read it to copy into the mover Job's namespace. Fix: set an explicit `namespace` on the Secret reference (a ",
    );
    m.append(ctx.repo_kind);
    m.append(
        " reference must pin one), or disable `spec.credentialProjection` and manage the Secret in each mover namespace yourself.",
    );
    m
}

/// The message for a Secret that is not where it is to be copied from.
pub fn projection_source_missing_message(
    secret: &str,
    src_ns: &str,
    job_ns: &str,
    ctx: &CredsContext,
) -> (r: String)
    ensures
        r@ == source_missing_text(secret@, src_ns@, job_ns@, *ctx),
{
    let mut m = "credential Secret `".to_owned();
    m.append(secret);
    m.append("` not found in source namespace `");
    m.append(src_ns);
    m.append("`, so ");
    m.append(ctx.repo_kind);
    m.append(" `");
    m.append(ctx.repo_name);
    m.append("` cannot project it into `");
    m.append(job_ns);
    m.append("` where the mover Job runs. Fix: create Secret `");
    m.append(secret);
    m.append("` in `");
    m.append(src_ns);
    m.append(
        "` with the repository credentials (e.g. `KOPIA_PASSWORD`, plus backend keys like `AWS_ACCESS_KEY_ID`/`AWS_SECRET_ACCESS_KEY`).",
    );
    m
}

/// The error for a copy that could not be applied. Where the operator may not
/// write it, the error names the switch that lets it; any other error stays.
pub fn map_projection_apply_error(e: Error, proj_name: &str, job_ns: &str) -> (r: Error)
    ensures
        match e {
            Error::Kube { code: Some(403), .. } => r is MissingDependency && r.text()
                == forbidden_text(proj_name@, job_ns@),
            _ => r == e,
        },
{
    match e {
        Error::Kube { code: Some(403), .. } => {
            let mut m =
                "the operator is not permitted to write the projected credentials Secret `".to_owned();
            m.append(proj_name);
            m.append("` in namespace `");
            m.append(job_ns);
            m.append(
                "` (HTTP 403). Credential projection needs cluster-wide `secrets` create/patch RBAC. Fix: set `",
            );
            m.append(CREDENTIAL_PROJECTION_FLAG);
            m.append(
                ": true` in the Helm chart (grants the operator ClusterRole those verbs), or disable `spec.credentialProjection` on the repository and manage the Secret in `",
            );
            m.append(job_ns);
            m.append("`.");
            Error::MissingDependency(m)
        },
        other => other,
    }
}

/// How a Secret reaches the mover.
pub fn creds_route(
    r: &CredsSecretRef,
    job_ns: &str,
    consumer_enabled: bool,
    owner_allowed: bool,
) -> (out: CredsRoute)
    ensures
        out == route(*r, job_ns@, consumer_enabled, owner_allowed),
{
    match &r.namespace {
        None => if consumer_enabled {
            CredsRoute::Unresolved
        } else {
            CredsRoute::InPlace
        },
        Some(ns) => {
            if same(ns.as_str(), job_ns) || !consumer_enabled {
                return CredsRoute::InPlace;
            }
            match projection_decision(consumer_enabled, owner_allowed) {
                ProjectionDecision::Project => CredsRoute::Project,
                ProjectionDecision::Deny(reason) => CredsRoute::Denied(reason),
            }
        },
    }
}

impl<'a> CredsPlan<'a> {
    /// How the Secret with this index reaches the mover.
    pub open spec fn route_at(self, i: int) -> CredsRoute {
        route(self.refs@[i], self.job_ns@, self.consumer_enabled, self.owner_allowed)
    }

    /// The name under which the mover loads the Secret with this index.
    pub open spec fn name_at(self, i: int) -> Seq<char> {
        if self.route_at(i) == CredsRoute::Project {
            copy_name(self.prefix@, i as nat)
        } else {
            self.refs@[i].name@
        }
    }

    /// How many of the first `n` Secrets are copied.
    pub open spec fn copies_among(self, n: int) -> nat
        decreases n,
    {
        if n <= 0 {
            0
        } else {
            self.copies_among(n - 1) + if self.route_at(n - 1) == CredsRoute::Project {
                1nat
            } else {
                0nat
            }
        }
    }

    /// Whether the first Secrets are settled under these names.
    pub open spec fn settled_as(self, names: Seq<String>, projected: int) -> bool {
        &&& names.len() <= self.refs@.len()
        &&& forall|i: int|
            0 <= i < names.len() ==> (#[trigger] names[i])@ == self.name_at(i) && (self.route_at(i)
                == CredsRoute::InPlace || self.route_at(i) == CredsRoute::Project)
        &&& projected == self.copies_among(names.len() as int)
        &&& projected <= names.len()
    }
}

impl<'a> CredsRun<'a> {
    /// What holds at every point of the run: the settled Secrets have their
    /// names, the copies among them are counted, and what is awaited is what the
    /// Secret at hand calls for.
    pub open spec fn inv(self) -> bool {
        &&& self.names@.len() == self.at
        &&& self.plan.settled_as(self.names@, self.projected as int)
        &&& match self.stage {
            CredsStage::Presence => self.at < self.plan.refs@.len() && self.plan.route_at(
                self.at as int,
            ) == CredsRoute::InPlace,
            CredsStage::Target | CredsStage::Source | CredsStage::Applied => self.at
                < self.plan.refs@.len() && self.plan.route_at(self.at as int)
                == CredsRoute::Project,
            CredsStage::Over => true,
        }
    }

    /// Whether an action is what the Secret at hand calls for first.
    pub open spec fn opens(self, action: CredsAction) -> bool {
        let i = self.at as int;
        if i == self.plan.refs@.len() {
            action is Done && self.stage == CredsStage::Over
        } else {
            let r = self.plan.refs@[i];
            match self.plan.route_at(i) {
                CredsRoute::InPlace => {
                    &&& self.stage == CredsStage::Presence
                    &&& action matches CredsAction::Verify { copy, secret } && copy@ == copy_name(
                        self.plan.prefix@,
                        i as nat,
                    ) && secret@ == r.name@
                },
                CredsRoute::Project => {
                    &&& self.stage == CredsStage::Target
                    &&& action matches CredsAction::ReadTarget { copy } && copy@ == copy_name(
                        self.plan.prefix@,
                        i as nat,
                    )
                },
                CredsRoute::Unresolved => {
                    &&& self.stage == CredsStage::Over
                    &&& fails_with(action, unresolved_text(r.name@, *self.plan.ctx))
                },
                CredsRoute::Denied(reason) => {
                    &&& self.stage == CredsStage::Over
                    &&& fails_with(
                        action,
                        denied_text(r.name@, or_empty(r.namespace), self.plan.job_ns@, reason, *self.plan.ctx),
                    )
                },
            }
        }
    }

    /// Whether an event is of the sort that is awaited.
    pub open spec fn awaits(self, event: CredsEvent) -> bool {
        match self.stage {
            CredsStage::Presence => event is Presence,
            CredsStage::Target => event is Target,
            CredsStage::Source => event is Source,
            CredsStage::Applied => event is Applied || event is Rejected,
            CredsStage::Over => false,
        }
    }

    /// The beginning of a run, with the first action.
    pub fn start(
        refs: &'a Vec<CredsSecretRef>,
        job_ns: &'a str,
        prefix: &'a CredsPrefix,
        owner_uid: &'a str,
        consumer_enabled: bool,
        owner_allowed: bool,
        ctx: &'a CredsContext<'a>,
    ) -> (r: (Self, CredsAction))
        ensures
            r.0.inv(),
            r.0.at == 0,
            r.0.opens(r.1),
            r.0.plan.refs == refs,
            r.0.plan.job_ns == job_ns,
            r.0.plan.prefix == prefix,
            r.0.plan.owner_uid == owner_uid,
            r.0.plan.consumer_enabled == consumer_enabled,
            r.0.plan.owner_allowed == owner_allowed,
            r.0.plan.ctx == ctx,
    {
        let plan = CredsPlan {
            refs,
            job_ns,
            prefix,
            owner_uid,
            consumer_enabled,
            owner_allowed,
            ctx,
        };
        let mut run = CredsRun {
            plan,
            at: 0,
            stage: CredsStage::Over,
            names: Vec::new(),
            projected: 0,
        };
        let action = run.open_next();
        (run, action)
    }

    /// What the Secret at hand calls for first.
    fn open_next(&mut self) -> (r: CredsAction)
        requires
            old(self).inv(),
            old(self).stage == CredsStage::Over,
        ensures
            final(self).inv(),
            final(self).plan == old(self).plan,
            final(self).at == old(self).at,
            final(self).names == old(self).names,
            final(self).projected == old(self).projected,
            final(self).opens(r),
    {
        if self.at == self.plan.refs.len() {
            return CredsAction::Done;
        }
        let r = &self.plan.refs[self.at];
        match creds_route(r, self.plan.job_ns, self.plan.consumer_enabled, self.plan.owner_allowed) {
            CredsRoute::InPlace => {
                self.stage = CredsStage::Presence;
                CredsAction::Verify {
                    copy: self.plan.prefix.secret_name(self.at),
                    secret: r.name.clone(),
                }
            },
            CredsRoute::Project => {
                self.stage = CredsStage::Target;
                CredsAction::ReadTarget { copy: self.plan.prefix.secret_name(self.at) }
            },
            CredsRoute::Unresolved => CredsAction::Fail(
                Error::MissingDependency(
                    projection_unresolved_ns_message(r.name.as_str(), self.plan.ctx),
                ),
            ),
            CredsRoute::Denied(reason) => {
                let src: &str = match &r.namespace {
                    Some(ns) => ns.as_str(),
                    None => "",
                };
                CredsAction::Fail(
                    Error::MissingDependency(
                        projection_denied_message(
                            r.name.as_str(),
                            src,
                            self.plan.job_ns,
                            reason,
                            self.plan.ctx,
                        ),
                    ),
                )
            },
        }
    }

    /// Settles the Secret at hand under `name` and opens the next one.
    fn settle(&mut self, name: String, copied: bool) -> (r: CredsAction)
        requires
            old(self).inv(),
            old(self).at < old(self).plan.refs@.len(),
            name@ == old(self).plan.name_at(old(self).at as int),
            copied == (old(self).plan.route_at(old(self).at as int) == CredsRoute::Project),
            !copied ==> old(self).plan.route_at(old(self).at as int) == CredsRoute::InPlace,
        ensures
            final(self).inv(),
            final(self).plan == old(self).plan,
            final(self).at == old(self).at + 1,
            final(self).opens(r),
    {
        let total: usize = self.plan.refs.len();
        assert(self.at < total);
        let ghost was = self.names@;
        self.names.push(name);
        if copied {
            self.projected = self.projected + 1;
        }
        self.at = self.at + 1;
        self.stage = CredsStage::Over;
        proof {
            let plan = self.plan;
            let names = self.names@;
            let n = was.len() as int;
            assert forall|i: int| 0 <= i < names.len() implies (#[trigger] names[i])@
                == plan.name_at(i) && (plan.route_at(i) == CredsRoute::InPlace || plan.route_at(i)
                == CredsRoute::Project) by {
                if i < n {
                    assert(names[i] == was[i]);
                }
            }
            assert(plan.copies_among(n + 1) == plan.copies_among(n) + if copied {
                1nat
            } else {
                0nat
            });
            assert(names.len() == n + 1 && names.len() <= plan.refs@.len());
            assert(self.projected == plan.copies_among(names.len() as int));
            assert(self.projected <= names.len());
            assert(plan.settled_as(names, self.projected as int));
        }
        self.open_next()
    }

    /// The next action, from what was found out.
    pub fn next(&mut self, event: CredsEvent) -> (r: CredsAction)
        requires
            old(self).inv(),
            old(self).awaits(event),
        ensures
            final(self).inv(),
            final(self).plan == old(self).plan,
            ({
                let i = old(self).at as int;
                let secret = old(self).plan.refs@[i].name@;
                let src = or_empty(old(self).plan.refs@[i].namespace);
                let copy = copy_name(old(self).plan.prefix@, i as nat);
                let settled = final(self).at == old(self).at + 1 && final(self).opens(r);
                let stays = final(self).at == old(self).at;
                match event {
                    CredsEvent::Presence(true) => settled,
                    CredsEvent::Presence(false) => stays && final(self).stage == CredsStage::Over
                        && fails_with(
                        r,
                        missing_text(secret, old(self).plan.job_ns@, *old(self).plan.ctx),
                    ),
                    CredsEvent::Target(existing) => {
                        if existing matches Some(m) && !own(m, old(self).plan.owner_uid@) {
                            stays && final(self).stage == CredsStage::Over && fails_with(
                                r,
                                conflict_text(
                                    copy,
                                    old(self).plan.job_ns@,
                                    controlling(existing->0.owner_references@),
                                    *old(self).plan.ctx,
                                ),
                            )
                        } else {
                            stays && final(self).stage == CredsStage::Source && (r matches
                                CredsAction::ReadSource { secret: s, namespace: n } && s@ == secret
                                && n@ == src)
                        }
                    },
                    CredsEvent::Source(true) => stays && final(self).stage == CredsStage::Applied
                        && (r matches CredsAction::Apply { copy: c } && c@ == copy),
                    CredsEvent::Source(false) => stays && final(self).stage == CredsStage::Over
                        && fails_with(
                        r,
                        source_missing_text(secret, src, old(self).plan.job_ns@, *old(self).plan.ctx),
                    ),
                    CredsEvent::Applied(meta) => if own(meta, old(self).plan.owner_uid@) {
                        settled
                    } else {
                        stays && final(self).stage == CredsStage::Over && fails_with(
                            r,
                            conflict_text(
                                copy,
                                old(self).plan.job_ns@,
                                controlling(meta.owner_references@),
                                *old(self).plan.ctx,
                            ),
                        )
                    },
                    CredsEvent::Rejected(e) => stays && final(self).stage == CredsStage::Over && (
                    match e {
                        Error::Kube { code: Some(403), .. } => fails_with(
                            r,
                            forbidden_text(copy, old(self).plan.job_ns@),
                        ),
                        _ => r == CredsAction::Fail(e),
                    }),
                }
            }),
    {
        let at: usize = self.at;
        let copy = self.plan.prefix.secret_name(at);
        let secret = self.plan.refs[at].name.clone();
        let src: String = match &self.plan.refs[at].namespace {
            Some(ns) => ns.clone(),
            None => "".to_owned(),
        };
        match event {
            CredsEvent::Presence(true) => self.settle(secret, false),
            CredsEvent::Presence(false) => {
                self.stage = CredsStage::Over;
                CredsAction::Fail(
                    Error::MissingDependency(
                        missing_creds_message(secret.as_str(), self.plan.job_ns, self.plan.ctx),
                    ),
                )
            },
            CredsEvent::Target(existing) => {
                let held: Option<&ObjectMeta> = match &existing {
                    Some(m) => Some(m),
                    None => None,
                };
                match projected_ownership(held, self.plan.owner_uid) {
                    ProjectedOwnership::Free | ProjectedOwnership::OwnedBySelf => {
                        self.stage = CredsStage::Source;
                        CredsAction::ReadSource { secret, namespace: src }
                    },
                    ProjectedOwnership::OwnedByOther(holder) => {
                        self.stage = CredsStage::Over;
                        CredsAction::Fail(
                            Error::MissingDependency(
                                projection_name_conflict_message(
                                    copy.as_str(),
                                    self.plan.job_ns,
                                    holder,
                                    self.plan.ctx,
                                ),
                            ),
                        )
                    },
                }
            },
            CredsEvent::Source(true) => {
                self.stage = CredsStage::Applied;
                CredsAction::Apply { copy }
            },
            CredsEvent::Source(false) => {
                self.stage = CredsStage::Over;
                CredsAction::Fail(
                    Error::MissingDependency(
                        projection_source_missing_message(
                            secret.as_str(),
                            src.as_str(),
                            self.plan.job_ns,
                            self.plan.ctx,
                        ),
                    ),
                )
            },
            CredsEvent::Applied(meta) => match projected_ownership(Some(&meta), self.plan.owner_uid) {
                ProjectedOwnership::OwnedBySelf => self.settle(copy, true),
                ProjectedOwnership::Free => {
                    self.stage = CredsStage::Over;
                    CredsAction::Fail(
                        Error::MissingDependency(
                            projection_name_conflict_message(
                                copy.as_str(),
                                self.plan.job_ns,
                                None,
                                self.plan.ctx,
                            ),
                        ),
                    )
                },
                ProjectedOwnership::OwnedByOther(holder) => {
                    self.stage = CredsStage::Over;
                    CredsAction::Fail(
                        Error::MissingDependency(
                            projection_name_conflict_message(
                                copy.as_str(),
                                self.plan.job_ns,
                                holder,
                                self.plan.ctx,
                            ),
                        ),
                    )
                },
            },
            CredsEvent::Rejected(e) => {
                self.stage = CredsStage::Over;
                CredsAction::Fail(map_projection_apply_error(e, copy.as_str(), self.plan.job_ns))
            },
        }
    }

    /// What the mover loads, once every Secret is settled.
    pub fn finish(self) -> (r: MoverCreds)
        requires
            self.inv(),
            self.at == self.plan.refs@.len(),
        ensures
            r.names@.len() == self.plan.refs@.len(),
            forall|i: int|
                0 <= i < self.plan.refs@.len() ==> (#[trigger] r.names@[i])@ == self.plan.name_at(i),
            r.projected == self.plan.copies_among(self.plan.refs@.len() as int),
    {
        MoverCreds { names: self.names, projected: self.projected }
    }
}

/// A Secret is copied only where both gates are open and it lives elsewhere.
pub proof fn lemma_copies_need_both_gates(
    r: CredsSecretRef,
    job_ns: Seq<char>,
    consumer_enabled: bool,
    owner_allowed: bool,
)
    ensures
        route(r, job_ns, consumer_enabled, owner_allowed) == CredsRoute::Project ==> {
            &&& consumer_enabled
            &&& owner_allowed
            &&& opt_text(r.namespace) matches Some(ns) && ns != job_ns
        },
        (!consumer_enabled || opt_text(r.namespace) == Some(job_ns)) ==> route(
            r,
            job_ns,
            consumer_enabled,
            owner_allowed,
        ) == CredsRoute::InPlace,
{
}

/// The consumers whose copies have names of their own.
pub enum CredsUse {
    /// Backup of a `Snapshot`.
    SnapshotBackup,
    /// `Restore`.
    Restore,
    /// Pinning of a `Snapshot`.
    SnapshotPin,
    /// `Maintenance`.
    Maintenance,
    /// Verification.
    Verification,
    /// `RepositoryReplication`.
    Replication,
    /// Bootstrap.
    Bootstrap,
    /// Source of a seeding.
    Seed,
    /// Source side of a `SnapshotReplication`.
    ReplicationSource,
    /// Destination side of a `SnapshotReplication`.
    ReplicationDestination,
}

/// What a consumer's kind adds to its name.
pub open spec fn slug(u: CredsUse) -> Seq<char> {
    match u {
        CredsUse::SnapshotBackup => ""@,
        CredsUse::Restore => "-restore"@,
        CredsUse::SnapshotPin => "-pin"@,
        CredsUse::Maintenance => "-maint"@,
        CredsUse::Verification => "-vfy"@,
        CredsUse::Replication => "-repl"@,
        CredsUse::Bootstrap => "-bootstrap"@,
        CredsUse::Seed => "-seed"@,
        CredsUse::ReplicationSource => "-srepl-src"@,
        CredsUse::ReplicationDestination => "-srepl-dst"@,
    }
}

proof fn lemma_slugs_differ(a: CredsUse, b: CredsUse)
    requires
        a != b,
    ensures
        slug(a) != slug(b),
{
    reveal_strlit("");
    reveal_strlit("-restore");
    reveal_strlit("-pin");
    reveal_strlit("-maint");
    reveal_strlit("-vfy");
    reveal_strlit("-repl");
    reveal_strlit("-bootstrap");
    reveal_strlit("-seed");
    reveal_strlit("-srepl-src");
    reveal_strlit("-srepl-dst");
    let x = slug(a);
    let y = slug(b);
    if x.len() == y.len() {
        if x.len() == 4 {
            assert(x[1] != y[1]);
        } else if x.len() == 5 {
            assert(x[1] != y[1]);
        } else {
            assert(x[1] != y[1] || x[7] != y[7]);
        }
    }
}

/// Consumers of different kinds that share a name never share the name of a
/// copy, as long as the names fit without being cut.
pub proof fn lemma_copy_names_differ_between_kinds(a: CredsUse, b: CredsUse, name: Seq<char>, idx: nat)
    requires
        a != b,
        encode_utf8(name + slug(a) + "-creds-"@ + decimal(idx)).len() <= 63,
        encode_utf8(name + slug(b) + "-creds-"@ + decimal(idx)).len() <= 63,
    ensures
        copy_name(name + slug(a), idx) != copy_name(name + slug(b), idx),
{
    lemma_slugs_differ(a, b);
    let x = copy_name(name + slug(a), idx);
    let y = copy_name(name + slug(b), idx);
    let tail = "-creds-"@ + decimal(idx);
    assert(x =~= name + slug(a) + tail);
    assert(y =~= name + slug(b) + tail);
    if x == y {
        assert(slug(a) =~= x.subrange(name.len() as int, x.len() - tail.len()));
        assert(slug(b) =~= y.subrange(name.len() as int, y.len() - tail.len()));
    }
}

/// The name of a copy is short enough for a DNS label.
pub proof fn lemma_copy_name_fits(prefix: Seq<char>, idx: nat)
    ensures
        copy_name(prefix, idx).len() <= 63,
{
    lemma_capped_fits(prefix + "-creds-"@ + decimal(idx));
}

/// The copies that one consumer has do not share a name, though a long prefix is cut.
pub proof fn lemma_copy_names_differ(prefix: Seq<char>, i: nat, j: nat)
    requires
        i < 10,
        j < 10,
        i != j,
    ensures
        copy_name(prefix, i) != copy_name(prefix, j),
{
    let front = prefix + "-creds-"@;
    assert(front + decimal(i) =~= front.push(digit(i as int)));
    assert(front + decimal(j) =~= front.push(digit(j as int)));
    if digit(i as int) == digit(j as int) {
        lemma_digits_differ(i as int, j as int);
    }
    reveal_strlit("0123456789abcdef");
    lemma_capped_tells_last_char(front, digit(i as int), digit(j as int));
}

/// A copy that was made for a consumer is one that the consumer may delete, and
/// nobody else may.
pub proof fn lemma_copies_are_reapable_by_their_owner(
    meta: ObjectMeta,
    owner: OwnerReference,
    uid: Seq<char>,
)
    requires
        opt_map(meta.labels) == copy_labels(),
        meta.owner_references@ == seq![owner],
        owner.controller == Some(true),
    ensures
        reapable(meta, uid) <==> owner.uid@ == uid,
{
    assert(controlling(meta.owner_references@) == Some(owner));
}

/// A copy that is made again at another instant is another object, so that
/// applying it is a write that shows: the instant stands in its annotations. It holds
/// of the instants that are read back from their text.
pub proof fn lemma_copies_of_two_instants_differ(
    src_ns: Option<String>,
    src_name: Option<String>,
    a: Moment,
    b: Moment,
)
    requires
        a.reads_back(),
        b.reads_back(),
        a != b,
    ensures
        copy_annotations(src_ns, src_name, a) != copy_annotations(src_ns, src_name, b),
{
    let (x, y) = (copy_annotations(src_ns, src_name, a), copy_annotations(src_ns, src_name, b));
    assert(x[PROJECTED_AT_ANNOTATION@] == rfc3339_text(a.secs, a.nanos));
    assert(y[PROJECTED_AT_ANNOTATION@] == rfc3339_text(b.secs, b.nanos));
}

/// How a Secret reaches the mover, case by case: in place where it lives there or nobody
/// asked for a copy, by a copy where the consumer asks and the owner allows, and not at all
/// where the owner does not, or where it is not known where the Secret lives.
pub proof fn lemma_every_route(r: CredsSecretRef, job_ns: Seq<char>, owner_allowed: bool)
    ensures
        route(r, job_ns, false, owner_allowed) == CredsRoute::InPlace,
        r.namespace is None ==> route(r, job_ns, true, owner_allowed) == CredsRoute::Unresolved,
        (r.namespace matches Some(ns) && ns@ == job_ns) ==> route(r, job_ns, true, owner_allowed)
            == CredsRoute::InPlace,
        (r.namespace matches Some(ns) && ns@ != job_ns) ==> route(r, job_ns, true, true)
            == CredsRoute::Project,
        (r.namespace matches Some(ns) && ns@ != job_ns) ==> route(r, job_ns, true, false)
            == CredsRoute::Denied(ProjectionDenyReason::OwnerNotAllowed),
{
}

/// Both gates are needed, and the one that is closed is told, the consumer's first.
pub proof fn lemma_both_gates()
    ensures
        decision(true, true) == ProjectionDecision::Project,
        decision(true, false) == ProjectionDecision::Deny(ProjectionDenyReason::OwnerNotAllowed),
        decision(false, true) == ProjectionDecision::Deny(ProjectionDenyReason::ConsumerNotOptedIn),
        decision(false, false) == ProjectionDecision::Deny(ProjectionDenyReason::ConsumerNotOptedIn),
{
}

/// An object is the consumer's own exactly where its first controlling owner is the
/// consumer.
pub proof fn lemma_what_is_own(meta: ObjectMeta, owner_uid: Seq<char>, at: int)
    ensures
        (forall|i: int|
            0 <= i < meta.owner_references@.len() ==> (#[trigger] meta.owner_references@[i]).controller
                != Some(true)) ==> !own(meta, owner_uid),
        (0 <= at < meta.owner_references@.len() && meta.owner_references@[at].controller == Some(true)
            && forall|i: int|
            0 <= i < at ==> (#[trigger] meta.owner_references@[i]).controller != Some(true)) ==> (own(
            meta,
            owner_uid,
        ) <==> meta.owner_references@[at].uid@ == owner_uid),
{
    let owners = meta.owner_references@;
    lemma_who_controls(owners);
    if 0 <= at < owners.len() && owners[at].controller == Some(true) && (forall|i: int|
        0 <= i < at ==> (#[trigger] owners[i]).controller != Some(true)) {
        let r = controlling(owners)->0;
        let i = choose|i: int|
            0 <= i < owners.len() && #[trigger] owners[i] == r && r.controller == Some(true)
                && forall|j: int| 0 <= j < i ==> (#[trigger] owners[j]).controller != Some(true);
        if i < at {
            assert(owners[i].controller != Some(true));
        }
        if at < i {
            assert(owners[at].controller != Some(true));
        }
    }
}

/// A copy may be deleted only where it carries the marker and is the consumer's own; a
/// Secret without the marker never, nor another's.
pub proof fn lemma_what_may_be_deleted(meta: ObjectMeta, owner_uid: Seq<char>)
    ensures
        reapable(meta, owner_uid) <==> own(meta, owner_uid) && (meta.labels matches Some(labels)
            && labels@.dom().contains("kopiur.home-operations.com/creds-scope"@)
            && labels@["kopiur.home-operations.com/creds-scope"@] == "cr"@),
{
}

/// Who holds the name of a copy: nobody where nothing is there, the consumer where it is
/// its own, and otherwise another, who is told where it is known.
pub proof fn lemma_who_holds_a_name(
    o: ProjectedOwnership,
    existing: Option<ObjectMeta>,
    owner_uid: Seq<char>,
)
    requires
        ownership_is(o, existing, owner_uid),
    ensures
        o is Free <==> existing is None,
        o is OwnedBySelf <==> (existing matches Some(m) && own(m, owner_uid)),
        o is OwnedByOther <==> (existing matches Some(m) && !own(m, owner_uid)),
        o matches ProjectedOwnership::OwnedByOther(h) ==> (h is Some <==> controlling(
            existing->0.owner_references@,
        ) is Some),
{
}

/// Each signal of a deletion counts once.
pub proof fn lemma_deletions_are_counted(signals: Seq<ReapSignal>, s: ReapSignal)
    ensures
        deleted_count(Seq::empty()) == 0,
        deleted_count(signals.push(ReapSignal::Deleted)) == deleted_count(signals) + 1,
        s != ReapSignal::Deleted ==> deleted_count(signals.push(s)) == deleted_count(signals),
        deleted_count(signals) <= signals.len(),
    decreases signals.len(),
{
    assert(signals.push(s).drop_last() =~= signals);
    assert(signals.push(ReapSignal::Deleted).drop_last() =~= signals);
    if signals.len() > 0 {
        lemma_deletions_are_counted(signals.drop_last(), s);
    }
}

/// The name of a copy tells whose it is and of which Secret, as long as it fits.
pub proof fn lemma_copy_names(prefix: Seq<char>, idx: nat)
    ensures
        encode_utf8(prefix + "-creds-"@ + decimal(idx)).len() <= 63 ==> copy_name(prefix, idx)
            == prefix + "-creds-"@ + decimal(idx),
        encode_utf8(prefix + "-creds-"@ + decimal(idx)).len() > 63 ==> copy_name(prefix, idx).len()
            <= 63 && copy_name(prefix, idx).skip(copy_name(prefix, idx).len() - 16) == hex(
            text_hash(prefix + "-creds-"@ + decimal(idx)) as nat,
            16,
        ),
{
    let full = prefix + "-creds-"@ + decimal(idx);
    lemma_capped_fits(full);
    if encode_utf8(full).len() > 63 {
        lemma_how_a_name_is_capped(full);
        lemma_hex(text_hash(full) as nat, 16);
        reveal_strlit("-");
        let n = capped(full).len() - 17;
        assert(capped(full).skip(n + 1) =~= capped(full).skip(n).skip(1));
        assert(("-"@ + hex(text_hash(full) as nat, 16)).skip(1) =~= hex(
            text_hash(full) as nat,
            16,
        ));
    }
}

/// The mover loads a copied Secret under the copy's name and every other under its own,
/// and the copies among them are counted one by one.
pub proof fn lemma_what_the_mover_loads<'a>(plan: CredsPlan<'a>, i: int)
    requires
        0 <= i < plan.refs@.len(),
    ensures
        plan.route_at(i) == route(
            plan.refs@[i],
            plan.job_ns@,
            plan.consumer_enabled,
            plan.owner_allowed,
        ),
        plan.route_at(i) == CredsRoute::Project ==> plan.name_at(i) == copy_name(
            plan.prefix@,
            i as nat,
        ),
        plan.route_at(i) != CredsRoute::Project ==> plan.name_at(i) == plan.refs@[i].name@,
        plan.copies_among(0) == 0,
        plan.copies_among(i + 1) == plan.copies_among(i) + (if plan.route_at(i) == CredsRoute::Project {
            1int
        } else {
            0int
        }),
{
}

/// Before anything else is done about a Secret it is settled what may be: a copy is made
/// only with both gates open and into another namespace than the source's, and a Secret
/// that is used in place has the consumer's old copy removed first.
pub proof fn lemma_what_a_secret_calls_for<'a>(run: CredsRun<'a>, action: CredsAction)
    requires
        run.at < run.plan.refs@.len(),
        run.opens(action),
    ensures
        ({
            let r = run.plan.refs@[run.at as int];
            &&& action is ReadTarget <==> run.plan.consumer_enabled && run.plan.owner_allowed && (
            r.namespace matches Some(ns) && ns@ != run.plan.job_ns@)
            &&& action is Verify <==> !run.plan.consumer_enabled || (r.namespace matches Some(ns)
                && ns@ == run.plan.job_ns@)
            &&& action is Fail <==> run.plan.consumer_enabled && (r.namespace is None || (
            r.namespace matches Some(ns) && ns@ != run.plan.job_ns@ && !run.plan.owner_allowed))
            &&& action !is Apply && action !is ReadSource && action !is Done
            &&& action matches CredsAction::Verify { copy, secret } ==> secret@ == r.name@ && copy@
                == copy_name(run.plan.prefix@, run.at as nat)
            &&& action matches CredsAction::ReadTarget { copy } ==> copy@ == copy_name(
                run.plan.prefix@,
                run.at as nat,
            )
        }),
{
}

/// A run is done when every Secret is settled, and not before.
pub proof fn lemma_when_a_run_is_done<'a>(run: CredsRun<'a>, action: CredsAction)
    requires
        run.opens(action),
        run.at <= run.plan.refs@.len(),
    ensures
        action is Done <==> run.at == run.plan.refs@.len(),
{
}

/// What each stage of a run waits for; once it is over it waits for nothing.
pub proof fn lemma_what_a_run_awaits<'a>(run: CredsRun<'a>, event: CredsEvent)
    ensures
        run.stage == CredsStage::Presence ==> (run.awaits(event) <==> event is Presence),
        run.stage == CredsStage::Target ==> (run.awaits(event) <==> event is Target),
        run.stage == CredsStage::Source ==> (run.awaits(event) <==> event is Source),
        run.stage == CredsStage::Applied ==> (run.awaits(event) <==> event is Applied
            || event is Rejected),
        run.stage == CredsStage::Over ==> !run.awaits(event),
{
}

/// A run that is done has settled every Secret where its route says, under its name, and
/// counted the copies: none is skipped, and none that may not be loaded is.
pub proof fn lemma_a_run_settles_in_order<'a>(run: CredsRun<'a>, i: int)
    requires
        run.inv(),
        0 <= i < run.at,
    ensures
        run.names@.len() == run.at,
        run.at <= run.plan.refs@.len(),
        run.names@[i]@ == run.plan.name_at(i),
        run.plan.route_at(i) == CredsRoute::InPlace || run.plan.route_at(i) == CredsRoute::Project,
        run.projected == run.plan.copies_among(run.at as int),
{
    assert(run.names@[i]@ == run.plan.name_at(i));
}

/// What a copy is marked with: who manages it, what it is, and that it belongs to one
/// object.
pub proof fn lemma_how_a_copy_is_marked(
    src_namespace: Option<String>,
    src_name: Option<String>,
    now: Moment,
)
    ensures
        copy_labels().dom().contains("kopiur.home-operations.com/creds-scope"@)
            && copy_labels()["kopiur.home-operations.com/creds-scope"@] == "cr"@,
        copy_labels().dom().contains("app.kubernetes.io/managed-by"@)
            && copy_labels()["app.kubernetes.io/managed-by"@] == "kopiur"@,
        copy_annotations(src_namespace, src_name, now).dom().contains(
            "kopiur.home-operations.com/projected-from"@,
        ),
        copy_annotations(src_namespace, src_name, now)["kopiur.home-operations.com/projected-from"@]
            == or_empty(src_namespace) + "/"@ + or_empty(src_name),
        copy_annotations(src_namespace, src_name, now).dom().contains(
            "kopiur.home-operations.com/projected-at"@,
        ),
        copy_annotations(src_namespace, src_name, now)["kopiur.home-operations.com/projected-at"@]
            == rfc3339_text(now.secs, now.nanos),
{
    reveal_strlit("kopiur.home-operations.com/creds-scope");
    reveal_strlit("app.kubernetes.io/managed-by");
    reveal_strlit("app.kubernetes.io/component");
    reveal_strlit("kopiur.home-operations.com/projected-from");
    reveal_strlit("kopiur.home-operations.com/projected-at");
    assert("kopiur.home-operations.com/creds-scope"@.len() == 38);
    assert("app.kubernetes.io/managed-by"@.len() == 28);
    assert("app.kubernetes.io/component"@.len() == 27);
    assert("kopiur.home-operations.com/projected-from"@.len()
        != "kopiur.home-operations.com/projected-at"@.len());
}

/// What a copy holds is what its source holds, entry by entry.
pub proof fn lemma_copies_hold_the_same(
    a: Option<Vec<(String, Vec<u8>)>>,
    b: Option<Vec<(String, Vec<u8>)>>,
    c: Option<Vec<(String, String)>>,
    d: Option<Vec<(String, String)>>,
)
    requires
        data_view(a) == data_view(b),
        string_data_view(c) == string_data_view(d),
    ensures
        a is Some <==> b is Some,
        a is Some ==> a->0@.len() == b->0@.len() && forall|i: int|
            0 <= i < a->0@.len() ==> (#[trigger] a->0@[i]).0@ == b->0@[i].0@ && a->0@[i].1@ == b->0@[i].1@,
        c is Some <==> d is Some,
        c is Some ==> c->0@.len() == d->0@.len() && forall|i: int|
            0 <= i < c->0@.len() ==> (#[trigger] c->0@[i]).0@ == d->0@[i].0@ && c->0@[i].1@ == d->0@[i].1@,
{
    if a is Some {
        let (x, y) = (data_view(a)->0, data_view(b)->0);
        assert(x.len() == a->0@.len() && y.len() == b->0@.len());
        assert forall|i: int| 0 <= i < a->0@.len() implies (#[trigger] a->0@[i]).0@ == b->0@[i].0@
            && a->0@[i].1@ == b->0@[i].1@ by {
            assert(x[i] == y[i]);
        }
    }
    if c is Some {
        let (x, y) = (string_data_view(c)->0, string_data_view(d)->0);
        assert(x.len() == c->0@.len() && y.len() == d->0@.len());
        assert forall|i: int| 0 <= i < c->0@.len() implies (#[trigger] c->0@[i]).0@ == d->0@[i].0@
            && c->0@[i].1@ == d->0@[i].1@ by {
            assert(x[i] == y[i]);
        }
    }
}

/// The words for the kinds of repositories.
pub proof fn lemma_words_for_kinds()
    ensures
        kind_text(RepositoryKind::Repository) == "Repository"@,
        kind_text(RepositoryKind::ClusterRepository) == "ClusterRepository"@,
{
}

/// What each message about a Secret tells: which it is, where it is missing or kept, and
/// what may be done.
pub proof fn lemma_what_messages_tell<'a>(
    secret: Seq<char>,
    src_ns: Seq<char>,
    job_ns: Seq<char>,
    ctx: CredsContext<'a>,
    holder: OwnerReference,
)
    ensures
        holds_text(
            missing_text(secret, job_ns, ctx),
            "credentials Secret `"@ + secret + "` does not exist in namespace `"@ + job_ns,
        ),
        holds_text(
            denied_text(secret, src_ns, job_ns, ProjectionDenyReason::OwnerNotAllowed, ctx),
            "cross-namespace credential projection denied for `"@ + secret + "`: it lives in `"@
                + src_ns + "` but the mover Job runs in `"@ + job_ns,
        ),
        holds_text(
            denied_text(secret, src_ns, job_ns, ProjectionDenyReason::OwnerNotAllowed, ctx),
            "the ClusterRepository owner has not allowed credential projection"@,
        ),
        holds_text(
            denied_text(secret, src_ns, job_ns, ProjectionDenyReason::ConsumerNotOptedIn, ctx),
            "the consumer has not opted in to credential projection"@,
        ),
        holds_text(
            unresolved_text(secret, ctx),
            "credential Secret `"@ + secret + "` for "@ + ctx.repo_kind@ + " `"@ + ctx.repo_name@,
        ),
        holds_text(
            source_missing_text(secret, src_ns, job_ns, ctx),
            "credential Secret `"@ + secret + "` not found in source namespace `"@ + src_ns,
        ),
        holds_text(
            forbidden_text(secret, job_ns),
            "the operator is not permitted to write the projected credentials Secret `"@ + secret
                + "` in namespace `"@ + job_ns,
        ),
        holds_text(
            conflict_text(secret, job_ns, Some(holder), ctx),
            "it is controlled by "@ + holder.kind@ + " `"@ + holder.name@ + "`"@,
        ),
        holds_text(conflict_text(secret, job_ns, None, ctx), secret),
        holds_text(conflict_text(secret, job_ns, None, ctx), job_ns),
{
    broadcast use lemma_holds_end, lemma_holds_on, lemma_holds_itself;

}

/// What is awaited is what the Secret at hand calls for: its presence where it is used in
/// place, and otherwise the steps of a copy, which begin with who holds its name.
pub proof fn lemma_what_is_awaited_is_called_for<'a>(run: CredsRun<'a>, action: CredsAction)
    requires
        run.inv(),
    ensures
        run.stage == CredsStage::Presence ==> run.plan.route_at(run.at as int) == CredsRoute::InPlace,
        run.stage == CredsStage::Target || run.stage == CredsStage::Source || run.stage
            == CredsStage::Applied ==> run.plan.route_at(run.at as int) == CredsRoute::Project,
        run.opens(action) && action is Verify ==> run.stage == CredsStage::Presence,
        run.opens(action) && action is ReadTarget ==> run.stage == CredsStage::Target,
        run.opens(action) && (action is Fail || action is Done) ==> run.stage == CredsStage::Over,
{
}

/// A run that fails for want of something tells what.
pub proof fn lemma_how_a_run_fails(action: CredsAction, message: Seq<char>)
    ensures
        fails_with(action, message) ==> (action matches CredsAction::Fail(e) && e is MissingDependency
            && e.text() == message),
        forall|m: String| m@ == message ==> #[trigger] fails_with(
            CredsAction::Fail(Error::MissingDependency(m)),
            message,
        ),
{
}

} // verus!
