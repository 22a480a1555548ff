//! The course of staging, one look at the cluster after the other.
//!
//! Staging alternates between reading or writing the cluster and deciding what
//! comes of it. A plan holds what is known beforehand, a state what is awaited, and a
//! step either asks for one more thing or is the outcome. Every write is one that can
//! be repeated, so a run that was cut off simply starts again.
use vstd::prelude::*;
use vstd::string::*;

use crate::clock::{Moment, Span};
use crate::consts::{
    COMPONENT_LABEL, GROUP_LABEL, GROUP_STAGING_WAITING_REASON, REASON_GROUP_MEMBER_MISSING,
    REASON_NO_GROUP_CLASS, STAGED_COMPONENT_LABEL, STAGED_PVC_BINDING_REASON,
    STAGING_WAITING_REASON,
};
use crate::io::apply::{Json, Tree, entry, member, members, tree};
use crate::io::group_staging::{
    GROUP_COMPONENT, GROUP_SNAPSHOT_GROUP, GROUP_SNAPSHOT_VERSION, GroupClassView, GroupMembers,
    GroupStage, GroupStageView, VgsObservation, build_volume_group_snapshot, driver_unknown,
    group_class, group_data, group_driver, group_member_stage, group_wait_stage, group_waiting,
    not_captured, pick_group_class, selector_gone, vgs_wait,
};
use crate::io::meta::OwnerReference;
use crate::io::staging::{
    BindingMode, COPY_METHOD_DEFAULTED_NOTE, ClassDecision, ClassDecisionView, ClassInfo,
    CopyMethod, DEFAULT_CLASS_ANNOTATION, DynamicObject, PersistentVolumeClaim, PvcBindWait,
    REASON_NO_CLASS, REASON_SOURCE_NOT_CSI, REASON_STACK_MISSING, SNAPSHOT_VERSION,
    StagedPvcObservation, StagedSource, StagingApplicability, StagingOutcome, StagingSpec,
    VsObservation, VsWait, WaitView, ambiguous_class_message, bind_wait, binding_message,
    binding_of, binding_text, bound_volume, build_staged_pvc, build_volume_snapshot, can_name,
    child_name, chosen_class, class_of, cleanup_plan, data_source_for, deadline_dated,
    decide_class, effective_binding_mode, expired, explicit_class_not_found_message, filled_from,
    is_deadline_dated, is_quantity_small, is_settled, is_sized, larger_quantity,
    lemma_how_binding_stands, made_labels, method_text,
    namespaced_install_cannot_group_stage_message, namespaced_install_cannot_stage_message,
    no_class_for_driver_message, opt_texts, preflight_fault, pvc_bind_outcome, quantity_fits,
    requested_storage, settled, sized, snapshot_data, source_class, source_not_csi_message,
    source_pvc_not_found_message, source_view, stack_missing_message, staged_class,
    staged_class_of, staged_class_preflight, staged_modes, staged_pvc_name,
    staging_applicability, volume_snapshot_name, vs_wait, vs_wait_outcome,
};
use crate::strmap::opt_map;
use crate::text::{
    holds_text, joined, lemma_holds_end, lemma_holds_itself, lemma_holds_on, opt_str, opt_text,
    same_opt,
};

verus! {

/// The shared snapshot that a run belongs to.
#[derive(Debug, Clone, PartialEq, Eq)]
pub struct GroupPin {
    /// Its namespace.
    pub namespace: String,
    /// Its name.
    pub name: String,
}

/// What is known before staging begins.
#[derive(Debug, PartialEq, Eq)]
pub struct StagingPlan {
    /// How the source is read.
    pub copy_method: CopyMethod,
    /// The claim that is backed up; none where the source is no claim.
    pub source_pvc: Option<String>,
    /// The namespace of that claim.
    pub source_namespace: String,
    /// Which of the policy's sources it comes from.
    pub source_index: usize,
    /// The policy.
    pub policy_name: String,
    /// How that source selects claims by label, where it does.
    pub selector: Option<Json>,
    /// The shared snapshot, where the run belongs to one.
    pub group: Option<GroupPin>,
    /// Whether the operator may use one namespace only.
    pub namespaced_install: bool,
    /// The namespace of the run.
    pub ns: String,
    /// The `Snapshot`.
    pub snapshot_cr: String,
    /// What the policy says about staging.
    pub staging: Option<StagingSpec>,
    /// The class of snapshots that the policy asks for.
    pub explicit_class: Option<String>,
    /// How long to wait; without it, forever.
    pub timeout: Option<Span>,
    /// The `Snapshot` as an owner.
    pub owner: OwnerReference,
}

/// What is awaited.
#[derive(Debug, PartialEq, Eq)]
pub enum StagingState {
    /// The source.
    Source,
    /// The driver of the source's storage class.
    Driver {
        /// The source.
        source: PersistentVolumeClaim,
    },
    /// The driver of the storage class that the policy asks for.
    Override {
        /// The source.
        source: PersistentVolumeClaim,
        /// The source's driver.
        driver: Option<String>,
    },
    /// The classes of snapshots.
    Classes {
        /// The source.
        source: PersistentVolumeClaim,
        /// The source's driver.
        driver: String,
    },
    /// That the snapshot is made.
    SnapshotMade {
        /// The source.
        source: PersistentVolumeClaim,
        /// The class of the snapshot.
        class: String,
    },
    /// A look at the snapshot.
    Snapshot {
        /// The source.
        source: PersistentVolumeClaim,
        /// The class of the snapshot.
        class: String,
    },
    /// The classes of group snapshots.
    GroupClasses {
        /// The source.
        source: PersistentVolumeClaim,
        /// The source's driver.
        driver: String,
    },
    /// That the shared snapshot is made.
    GroupMade {
        /// The source.
        source: PersistentVolumeClaim,
        /// The class of the snapshot.
        class: String,
    },
    /// A look at the shared snapshot.
    Group {
        /// The source.
        source: PersistentVolumeClaim,
        /// The class of the snapshot.
        class: String,
    },
    /// The members of the shared snapshot.
    Members {
        /// The source.
        source: PersistentVolumeClaim,
    },
    /// That the staged claim is made.
    StagedMade {
        /// Its storage class.
        class: Option<String>,
        /// The snapshot that it is restored from.
        snapshot: Option<String>,
    },
    /// The storage classes, for the default among them.
    DefaultClass {
        /// The snapshot that the staged claim is restored from.
        snapshot: Option<String>,
    },
    /// When the volumes of its storage class are bound.
    Binding {
        /// The storage class that the staged claim asks for.
        class: Option<String>,
        /// The one that counts.
        effective: String,
        /// The snapshot that the staged claim is restored from.
        snapshot: Option<String>,
    },
    /// A look at the staged claim.
    Staged {
        /// The storage class that the staged claim asks for.
        class: Option<String>,
        /// The one that counts.
        effective: String,
        /// The snapshot that the staged claim is restored from.
        snapshot: Option<String>,
    },
}

/// What was found or done.
#[derive(Debug, PartialEq, Eq)]
pub enum StagingEvent {
    /// The source, where it exists.
    Source(Option<PersistentVolumeClaim>),
    /// The driver of a storage class, where that exists.
    Driver(Option<String>),
    /// The classes of snapshots, where the API server serves them.
    Classes(Option<Vec<ClassInfo>>),
    /// What was to be made is made.
    Made,
    /// A look at the snapshot, where it is there.
    Snapshot(Option<VsObservation>),
    /// A look at the shared snapshot, where it is there.
    Group(Option<VgsObservation>),
    /// The members of the shared snapshot.
    Members(GroupMembers),
    /// The storage classes, each with its name and what its annotation of the
    /// default says.
    StorageClasses(Vec<(Option<String>, Option<String>)>),
    /// What a storage class says about binding, where it exists.
    Binding(Option<Option<String>>),
    /// A look at the staged claim, where it is there.
    Staged(Option<StagedPvcObservation>),
}

/// What is to be found out or done.
#[derive(Debug, PartialEq, Eq)]
pub enum StagingAction {
    /// Read the source.
    ReadSource {
        /// Its name.
        name: String,
    },
    /// Read a storage class for its driver.
    ReadDriver {
        /// Its name.
        class: String,
    },
    /// List the classes of snapshots.
    ListClasses,
    /// Make this snapshot.
    MakeSnapshot(DynamicObject),
    /// Look at the snapshot.
    ReadSnapshot {
        /// Its name.
        name: String,
    },
    /// List the classes of group snapshots.
    ListGroupClasses,
    /// Make this shared snapshot.
    MakeGroup(DynamicObject),
    /// Look at the shared snapshot.
    ReadGroup,
    /// Look up the members of the shared snapshot.
    ListMembers,
    /// Make this staged claim.
    MakeStaged(PersistentVolumeClaim),
    /// List the storage classes.
    ListStorageClasses,
    /// Read a storage class for when its volumes are bound.
    ReadBinding {
        /// Its name.
        class: String,
    },
    /// Look at the staged claim.
    ReadStaged {
        /// Its name.
        name: String,
    },
}

/// A step of staging.
#[derive(Debug, PartialEq, Eq)]
pub enum StagingStep {
    /// Do this, then go on from that state.
    Ask {
        /// What is awaited.
        state: StagingState,
        /// What is to be done.
        action: StagingAction,
    },
    /// This came of it.
    Done(StagingOutcome),
}

/// A step of removing what staging has made.
#[derive(Debug, Clone, PartialEq, Eq)]
pub enum CleanupStep {
    /// Delete a mover's pod, which holds the staged claim.
    DeletePod {
        /// Its name.
        name: String,
    },
    /// Let a volume go with its claim.
    ReclaimVolume {
        /// Its name.
        name: String,
    },
    /// Delete the staged claim.
    DeleteClaim {
        /// Its name.
        name: String,
    },
    /// Remove the shared snapshot, if nobody needs it any more.
    ReapGroup {
        /// Its namespace.
        namespace: String,
        /// Its name.
        name: String,
    },
    /// Delete the snapshot, if it is there.
    DeleteSnapshot {
        /// Its name.
        name: String,
    },
}

/// Whether staging has failed for this reason, with this message.
pub open spec fn fails(r: StagingStep, reason: Seq<char>, message: Seq<char>) -> bool {
    r matches StagingStep::Done(StagingOutcome::Failed { reason: a, message: b }) && a@ == reason
        && b@ == message
}

/// Whether staging waits for this reason, with this message.
pub open spec fn waits(r: StagingStep, reason: Seq<char>, message: Seq<char>) -> bool {
    r matches StagingStep::Done(StagingOutcome::Waiting { reason: a, message: b }) && a@ == reason
        && b@ == message
}

/// The seconds of a timeout as a signed number of 64 bits; none is zero.
pub open spec fn timeout_seconds(timeout: Option<Span>) -> int {
    match timeout {
        Some(t) => if t.secs <= i64::MAX {
            t.secs as int
        } else {
            t.secs - 0x1_0000_0000_0000_0000
        },
        None => 0,
    }
}

/// The name of the first storage class that is annotated as the default.
pub open spec fn default_class(classes: Seq<(Option<String>, Option<String>)>) -> Option<Seq<char>>
    decreases classes.len(),
{
    if classes.len() == 0 {
        None
    } else if opt_text(classes.first().1) == Some("true"@) {
        opt_text(classes.first().0)
    } else {
        default_class(classes.drop_first())
    }
}

/// What a storage class says about binding; one that does not exist says nothing.
pub open spec fn binding_of_class(found: Option<Option<String>>) -> BindingMode {
    match found {
        Some(mode) => binding_of(opt_text(mode)),
        None => BindingMode::Immediate,
    }
}

fn copy_opt(o: &Option<String>) -> (r: Option<String>)
    ensures
        opt_text(r) == opt_text(*o),
{
    match o {
        Some(s) => Some(s.clone()),
        None => None,
    }
}

fn borrow_opt(o: &Option<String>) -> (r: Option<&str>)
    ensures
        opt_str(r) == opt_text(*o),
{
    match o {
        Some(s) => Some(s.as_str()),
        None => None,
    }
}

fn failed(reason: &'static str, message: String) -> (r: StagingStep)
    ensures
        fails(r, reason@, message@),
{
    StagingStep::Done(StagingOutcome::Failed { reason, message })
}

fn waiting(reason: &'static str, message: String) -> (r: StagingStep)
    ensures
        waits(r, reason@, message@),
{
    StagingStep::Done(StagingOutcome::Waiting { reason, message })
}

/// The seconds of a timeout as a signed number of 64 bits.
pub fn staging_timeout_seconds(timeout: Option<Span>) -> (r: i64)
    ensures
        r == timeout_seconds(timeout),
{
    match timeout {
        Some(t) => if t.secs <= 0x7fff_ffff_ffff_ffff {
            t.secs as i64
        } else {
            let short: u64 = 0xffff_ffff_ffff_ffff - t.secs;
            -(short as i64) - 1
        },
        None => 0,
    }
}

/// The name of the first storage class that is annotated as the default.
pub fn default_storage_class(classes: &Vec<(Option<String>, Option<String>)>) -> (r: Option<String>)
    ensures
        opt_text(r) == default_class(classes@),
{
    let mut i: usize = 0;
    assert(classes@.skip(0) =~= classes@);
    while i < classes.len()
        invariant
            i <= classes@.len(),
            default_class(classes@) == default_class(classes@.skip(i as int)),
        decreases classes@.len() - i,
    {
        assert(classes@.skip(i as int).drop_first() =~= classes@.skip(i + 1));
        if same_opt(borrow_opt(&classes[i].1), Some("true")) {
            return copy_opt(&classes[i].0);
        }
        i += 1;
    }
    None
}

impl StagingPlan {
    /// Whether the run stages from a shared snapshot.
    pub open spec fn grouped(self) -> bool {
        self.group is Some && self.copy_method != CopyMethod::Clone
    }

    /// The name of the source.
    pub open spec fn source_name(self) -> Seq<char> {
        match self.source_pvc {
            Some(s) => s@,
            None => ""@,
        }
    }

    /// The name of the staged claim.
    pub open spec fn staged_name(self) -> Seq<char> {
        child_name(self.snapshot_cr@, "src"@)
    }

    /// The name of the snapshot.
    pub open spec fn snapshot_name(self) -> Seq<char> {
        child_name(self.snapshot_cr@, "snap"@)
    }

    /// Whether names can be made for what is staged.
    pub open spec fn valid(self) -> bool {
        can_name(self.snapshot_cr@, "src"@) && can_name(self.snapshot_cr@, "snap"@)
    }

    /// Whether the policy asks for a storage class of its own.
    pub open spec fn overrides(self) -> bool {
        self.staging matches Some(s) && s.storage_class_name is Some
    }

    /// The storage class that the policy asks for.
    pub open spec fn override_class(self) -> Seq<char> {
        match self.staging {
            Some(s) => match s.storage_class_name {
                Some(c) => c@,
                None => ""@,
            },
            None => ""@,
        }
    }

    /// Whether an event can be worked on in a state. Where the staged claim is to be
    /// made, 128 bits hold the sizes that it is made from. Where a wait is judged by
    /// its deadline, the deadline has a date.
    pub open spec fn workable(self, state: StagingState, event: StagingEvent) -> bool {
        match (state, event) {
            (StagingState::Source, StagingEvent::Source(Some(p))) => self.copy_method
                == CopyMethod::Clone && !self.overrides() && class_of(p) is None ==> sized(p),
            (StagingState::Driver { source }, StagingEvent::Driver(_)) => self.copy_method
                == CopyMethod::Clone && !self.overrides() ==> sized(source),
            (StagingState::Override { source, driver }, StagingEvent::Driver(found)) => {
                self.copy_method == CopyMethod::Clone && preflight_fault(
                    self.override_class(),
                    opt_text(found),
                    opt_text(driver),
                ) is None ==> sized(source)
            },
            (
                StagingState::Snapshot { source, .. },
                StagingEvent::Snapshot(Some(o)),
            ) => if o.ready {
                sized(source) && quantity_fits(opt_text(o.restore_size))
            } else {
                deadline_dated(self.timeout, o.created_at)
            },
            (StagingState::Group { .. }, StagingEvent::Group(Some(o))) => !o.ready
                ==> deadline_dated(self.timeout, o.created_at),
            (StagingState::Members { source }, StagingEvent::Members(m)) => {
                let key = (self.source_namespace@, self.source_name());
                m@.dom().contains(key) ==> sized(source) && quantity_fits(m@[key].1)
            },
            (StagingState::Staged { .. }, StagingEvent::Staged(Some(o))) => !settled(
                opt_text(o.phase),
            ) ==> deadline_dated(self.timeout, o.created_at),
            _ => true,
        }
    }

    /// Whether this is the snapshot that the staged claim can be filled from: none
    /// for a clone, the plan's own where the source is captured alone, and that of a
    /// member where it is captured with its group.
    pub open spec fn fills(self, snapshot: Option<Seq<char>>) -> bool {
        if self.copy_method == CopyMethod::Clone {
            snapshot is None
        } else if self.grouped() {
            snapshot is Some
        } else {
            snapshot == Some(self.snapshot_name())
        }
    }

    /// Whether a state is one that this plan can be in.
    pub open spec fn reachable(self, state: StagingState) -> bool {
        let alone = !self.grouped() && self.copy_method != CopyMethod::Clone;
        &&& self.source_pvc is Some
        &&& self.copy_method != CopyMethod::Direct
        &&& match state {
            StagingState::Source => true,
            StagingState::Driver { .. } => true,
            StagingState::Override { .. } => self.overrides(),
            StagingState::Classes { .. } => alone,
            StagingState::SnapshotMade { .. } => alone,
            StagingState::Snapshot { .. } => alone,
            StagingState::GroupClasses { .. } => self.grouped() && self.selector is Some,
            StagingState::GroupMade { .. } => self.grouped() && self.selector is Some,
            StagingState::Group { .. } => self.grouped() && self.selector is Some,
            StagingState::Members { .. } => self.grouped() && self.selector is Some,
            StagingState::StagedMade { snapshot, .. } => self.fills(opt_text(snapshot)),
            StagingState::DefaultClass { snapshot } => self.fills(opt_text(snapshot)),
            StagingState::Binding { snapshot, .. } => self.fills(opt_text(snapshot)),
            StagingState::Staged { snapshot, .. } => self.fills(opt_text(snapshot)),
        }
    }

    /// Whether an event is what a state awaits.
    pub open spec fn awaited(self, state: StagingState, event: StagingEvent) -> bool {
        match state {
            StagingState::Source => event is Source,
            StagingState::Driver { .. } => event is Driver,
            StagingState::Override { .. } => event is Driver,
            StagingState::Classes { .. } => event is Classes,
            StagingState::SnapshotMade { .. } => event is Made,
            StagingState::Snapshot { .. } => event is Snapshot,
            StagingState::GroupClasses { .. } => event is Classes,
            StagingState::GroupMade { .. } => event is Made,
            StagingState::Group { .. } => event is Group,
            StagingState::Members { .. } => event is Members,
            StagingState::StagedMade { .. } => event is Made,
            StagingState::DefaultClass { .. } => event is StorageClasses,
            StagingState::Binding { .. } => event is Binding,
            StagingState::Staged { .. } => event is Staged,
        }
    }

    /// Whether a step is the beginning: nothing where the live source is mounted,
    /// a failure where the install cannot read what staging takes, and otherwise a
    /// read of the source.
    pub open spec fn begins(self, r: StagingStep) -> bool {
        if self.copy_method == CopyMethod::Direct || self.source_pvc is None {
            r == StagingStep::Done(StagingOutcome::NotApplicable)
        } else if self.namespaced_install {
            r matches StagingStep::Done(StagingOutcome::Failed { reason, message }) && reason@
                == REASON_SOURCE_NOT_CSI@ && message@ == if self.group is Some {
                "namespaced install (`installScope: namespaced`): its Role RBAC cannot read the cluster-scoped VolumeGroupSnapshotClass, VolumeSnapshotContent and PersistentVolume objects a `VolumeGroupSnapshot` capture needs to map group members to their PVCs. Fix: set `groupBy: None` with `copyMethod: Direct` (independent reads of the live volumes), or reinstall with installScope=cluster."@
            } else {
                "namespaced install (installScope: namespaced): its Role RBAC cannot read the cluster-scoped StorageClass/VolumeSnapshotClass objects CSI staging requires. Fix: set copyMethod: Direct, or reinstall with installScope=cluster. "@
                    + COPY_METHOD_DEFAULTED_NOTE@ + "."@
            }
        } else {
            r matches StagingStep::Ask {
                state: StagingState::Source,
                action: StagingAction::ReadSource { name },
            } && name@ == self.source_name()
        }
    }

    /// Whether a step is what follows once the source's driver is known: a look at
    /// the storage class that the policy asks for, or else the capture.
    pub open spec fn goes_on_with_driver(
        self,
        source: PersistentVolumeClaim,
        driver: Option<Seq<char>>,
        r: StagingStep,
    ) -> bool {
        if self.overrides() {
            r matches StagingStep::Ask {
                state: StagingState::Override { source: s, driver: d },
                action: StagingAction::ReadDriver { class },
            } && s == source && opt_text(d) == driver && class@ == self.override_class()
        } else {
            self.captures(source, driver, r)
        }
    }

    /// Whether a step begins the capture: of the group, of the source alone, or, for
    /// a clone, none at all.
    pub open spec fn captures(
        self,
        source: PersistentVolumeClaim,
        driver: Option<Seq<char>>,
        r: StagingStep,
    ) -> bool {
        if self.grouped() {
            let g = self.group->0;
            if self.selector is None {
                fails(
                    r,
                    REASON_GROUP_MEMBER_MISSING@,
                    selector_gone(
                        g.namespace@,
                        g.name@,
                        self.policy_name@,
                        self.source_index as nat,
                    ),
                )
            } else if driver is None {
                fails(
                    r,
                    REASON_NO_GROUP_CLASS@,
                    driver_unknown(self.source_namespace@, self.source_name()),
                )
            } else {
                r matches StagingStep::Ask {
                    state: StagingState::GroupClasses { source: s, driver: d },
                    action: StagingAction::ListGroupClasses,
                } && s == source && Some(d@) == driver
            }
        } else if self.copy_method == CopyMethod::Clone {
            self.makes_staged(source, None, None, r)
        } else if driver is None {
            fails(
                r,
                REASON_SOURCE_NOT_CSI@,
                "source PVC `"@ + self.ns@ + "/"@ + self.source_name()
                    + "` has no StorageClass / CSI provisioner, so it cannot be CSI-snapshotted; use a CSI StorageClass, or set copyMethod: Direct. "@
                    + COPY_METHOD_DEFAULTED_NOTE@ + "."@,
            )
        } else {
            r matches StagingStep::Ask {
                state: StagingState::Classes { source: s, driver: d },
                action: StagingAction::ListClasses,
            } && s == source && Some(d@) == driver
        }
    }

    /// Whether a step makes the staged claim, restored from the given snapshot, or
    /// cloned from the source where there is none.
    pub open spec fn makes_staged(
        self,
        source: PersistentVolumeClaim,
        snapshot: Option<Seq<char>>,
        restore_size: Option<Seq<char>>,
        r: StagingStep,
    ) -> bool {
        r matches StagingStep::Ask {
            state: StagingState::StagedMade { class, snapshot: s },
            action: StagingAction::MakeStaged(pvc),
        } && opt_text(s) == snapshot && opt_text(class) == staged_class(
            self.staging,
            source.spec,
        ) && opt_text(pvc.name) == Some(self.staged_name()) && opt_text(pvc.namespace) == Some(
            self.ns@,
        ) && pvc.owner_references@ == seq![self.owner] && pvc.labels is Some && opt_map(pvc.labels)
            == made_labels(STAGED_COMPONENT_LABEL@, "staged-source"@) && pvc.created_at is None
            && pvc.phase is None && (pvc.spec matches Some(spec) && {
            &&& opt_texts(spec.access_modes) == staged_modes(self.staging, source.spec)
            &&& opt_text(spec.storage_class_name) == staged_class(self.staging, source.spec)
            &&& opt_text(spec.volume_mode) == match source.spec {
                Some(src) => opt_text(src.volume_mode),
                None => None,
            }
            &&& spec.volume_name is None
            &&& opt_text(spec.storage_request) == larger_quantity(
                restore_size,
                requested_storage(source.spec),
            )
            &&& spec.data_source matches Some(d) && source_view(d) == filled_from(
                self.copy_method,
                self.source_name(),
                match snapshot {
                    Some(n) => n,
                    None => self.snapshot_name(),
                },
            )
        })
    }

    /// Whether a step is the successful end.
    pub open spec fn is_ready(
        self,
        class: Option<Seq<char>>,
        snapshot: Option<Seq<char>>,
        r: StagingStep,
    ) -> bool {
        r matches StagingStep::Done(StagingOutcome::Ready(s)) && s.pvc_name@ == self.staged_name()
            && opt_text(s.volume_snapshot_name) == snapshot && opt_text(
            s.volume_group_snapshot_name,
        ) == (if self.grouped() {
            Some(self.group->0.name@)
        } else {
            None
        }) && s.copy_method@ == (if self.copy_method == CopyMethod::Clone {
            "Clone"@
        } else {
            "Snapshot"@
        }) && opt_text(s.storage_class_name) == class && s.staging_timeout_seconds
            == timeout_seconds(self.timeout)
    }

    /// Whether a step follows a state, given what was found or done.
    pub open spec fn follows(
        self,
        state: StagingState,
        event: StagingEvent,
        now: Moment,
        r: StagingStep,
    ) -> bool {
        match (state, event) {
            (StagingState::Source, StagingEvent::Source(found)) => match found {
                None => fails(
                    r,
                    REASON_SOURCE_NOT_CSI@,
                    "source PVC `"@ + self.ns@ + "/"@ + self.source_name()
                        + "` was not found; copyMethod "@ + method_text(self.copy_method)
                        + " needs an existing CSI-provisioned PVC to snapshot — create the PVC, or set copyMethod: Direct. "@
                        + COPY_METHOD_DEFAULTED_NOTE@ + "."@,
                ),
                Some(p) => {
                    if class_of(p) is Some {
                        r matches StagingStep::Ask {
                            state: StagingState::Driver { source },
                            action: StagingAction::ReadDriver { class: c },
                        } && source == p && Some(c@) == class_of(p)
                    } else {
                        self.goes_on_with_driver(p, None, r)
                    }
                },
            },
            (
                StagingState::Driver { source },
                StagingEvent::Driver(driver),
            ) => self.goes_on_with_driver(source, opt_text(driver), r),
            (StagingState::Override { source, driver }, StagingEvent::Driver(found)) => {
                match preflight_fault(
                    self.override_class(),
                    opt_text(found),
                    opt_text(driver),
                ) {
                    Some((reason, message)) => fails(r, reason, message),
                    None => self.captures(source, opt_text(driver), r),
                }
            },
            (StagingState::Classes { source, driver }, StagingEvent::Classes(listed)) => match listed {
                None => fails(
                    r,
                    REASON_STACK_MISSING@,
                    "CSI snapshot stack not installed (no VolumeSnapshotClass API), so copyMethod: Snapshot cannot run. Fix: install the external-snapshotter (snapshot-controller + CRDs) and a VolumeSnapshotClass for driver `"@
                        + driver@ + "`, or set copyMethod: Direct. "@ + COPY_METHOD_DEFAULTED_NOTE@
                        + "."@,
                ),
                Some(classes) => match chosen_class(
                    classes@,
                    driver@,
                    opt_text(self.explicit_class),
                ) {
                    ClassDecisionView::Use(name) => r matches StagingStep::Ask {
                        state: StagingState::SnapshotMade { source: s, class },
                        action: StagingAction::MakeSnapshot(vs),
                    } && s == source && class@ == name && vs.api_version@ == SNAPSHOT_VERSION@
                        && vs.kind@ == "VolumeSnapshot"@ && vs.name@ == self.snapshot_name()
                        && vs.namespace@ == self.ns@ && vs.labels@ == made_labels(
                        STAGED_COMPONENT_LABEL@,
                        "staged-source-snapshot"@,
                    ) && vs.owner_references@ == seq![self.owner] && tree(vs.data) == snapshot_data(self.source_name(), Some(name)),
                    ClassDecisionView::ExplicitNotFound(name) => fails(
                        r,
                        REASON_NO_CLASS@,
                        "volumeSnapshotClassName `"@ + name
                            + "` does not exist; create it (driver `"@ + driver@
                            + "`), pick an existing class, or set copyMethod: Direct. "@
                            + COPY_METHOD_DEFAULTED_NOTE@ + "."@,
                    ),
                    ClassDecisionView::NoneForDriver(d) => fails(
                        r,
                        REASON_NO_CLASS@,
                        "no VolumeSnapshotClass has driver `"@ + d
                            + "` (the source PVC's provisioner); create a VolumeSnapshotClass for it (optionally annotate it "@
                            + DEFAULT_CLASS_ANNOTATION@
                            + "=true), set volumeSnapshotClassName explicitly, or set copyMethod: Direct. "@
                            + COPY_METHOD_DEFAULTED_NOTE@ + "."@,
                    ),
                    ClassDecisionView::Ambiguous(d, names) => fails(
                        r,
                        REASON_NO_CLASS@,
                        "multiple VolumeSnapshotClasses match driver `"@ + d + "` ("@ + joined(
                            names,
                            ", "@,
                        )
                            + ") and none is the unique default; set volumeSnapshotClassName explicitly to choose one"@,
                    ),
                },
            },
            (StagingState::SnapshotMade { source, class }, StagingEvent::Made) => r matches
                StagingStep::Ask {
                state: StagingState::Snapshot { source: s, class: c },
                action: StagingAction::ReadSnapshot { name },
            } && s == source && c == class && name@ == self.snapshot_name(),
            (StagingState::Snapshot { source, class }, StagingEvent::Snapshot(seen)) => match seen {
                None => waits(
                    r,
                    STAGING_WAITING_REASON@,
                    "waiting for VolumeSnapshot `"@ + self.ns@ + "/"@ + self.snapshot_name()
                        + "` to become readyToUse"@,
                ),
                Some(o) => match vs_wait(
                    o.ready,
                    opt_text(o.restore_size),
                    opt_text(o.error),
                    o.created_at,
                    self.ns@,
                    self.snapshot_name(),
                    class@,
                    self.timeout,
                    now,
                ) {
                    WaitView::Ready(size) => self.makes_staged(
                        source,
                        Some(self.snapshot_name()),
                        size,
                        r,
                    ),
                    WaitView::Waiting(m) => waits(r, STAGING_WAITING_REASON@, m),
                    WaitView::Failed(reason, m) => fails(r, reason, m),
                },
            },
            (StagingState::GroupClasses { source, driver }, StagingEvent::Classes(listed)) => {
                match group_class(
                    match listed {
                        Some(c) => Some(c@),
                        None => None,
                    },
                    driver@,
                ) {
                    GroupClassView::Fail(m) => fails(r, REASON_NO_GROUP_CLASS@, m),
                    GroupClassView::Use(name) => r matches StagingStep::Ask {
                        state: StagingState::GroupMade { source: s, class },
                        action: StagingAction::MakeGroup(g),
                    } && s == source && class@ == name && g.api_version@ == GROUP_SNAPSHOT_GROUP@
                        + "/"@ + GROUP_SNAPSHOT_VERSION@ && g.kind@ == "VolumeGroupSnapshot"@
                        && g.name@ == self.group->0.name@ && g.namespace@
                        == self.group->0.namespace@ && g.labels@ == made_labels(
                        COMPONENT_LABEL@,
                        GROUP_COMPONENT@,
                    ).insert(GROUP_LABEL@, self.group->0.name@) && g.owner_references@.len() == 0
                        && tree(g.data) == group_data(name, tree(self.selector->0)),
                }
            },
            (StagingState::GroupMade { source, class }, StagingEvent::Made) => r matches
                StagingStep::Ask {
                state: StagingState::Group { source: s, class: c },
                action: StagingAction::ReadGroup,
            } && s == source && c == class,
            (StagingState::Group { source, class }, StagingEvent::Group(seen)) => match seen {
                None => waits(
                    r,
                    GROUP_STAGING_WAITING_REASON@,
                    group_waiting(self.group->0.namespace@, self.group->0.name@),
                ),
                Some(o) => match vgs_wait(
                    o.ready,
                    opt_text(o.error),
                    o.created_at,
                    self.group->0.namespace@,
                    self.group->0.name@,
                    class@,
                    self.timeout,
                    now,
                ) {
                    WaitView::Ready(_) => r matches StagingStep::Ask {
                        state: StagingState::Members { source: s },
                        action: StagingAction::ListMembers,
                    } && s == source,
                    WaitView::Waiting(m) => waits(r, GROUP_STAGING_WAITING_REASON@, m),
                    WaitView::Failed(reason, m) => fails(r, reason, m),
                },
            },
            (StagingState::Members { source }, StagingEvent::Members(members)) => {
                let key = (self.source_namespace@, self.source_name());
                if members@.dom().contains(key) {
                    self.makes_staged(source, Some(members@[key].0), members@[key].1, r)
                } else {
                    fails(
                        r,
                        REASON_GROUP_MEMBER_MISSING@,
                        not_captured(
                            self.group->0.namespace@,
                            self.group->0.name@,
                            self.source_namespace@,
                            self.source_name(),
                        ),
                    )
                }
            },
            (StagingState::StagedMade { class, snapshot }, StagingEvent::Made) => match class {
                Some(c) => r matches StagingStep::Ask {
                    state: StagingState::Binding { class: a, effective, snapshot: s },
                    action: StagingAction::ReadBinding { class: b },
                } && opt_text(a) == Some(c@) && effective@ == c@ && b@ == c@ && opt_text(s)
                    == opt_text(snapshot),
                None => r matches StagingStep::Ask {
                    state: StagingState::DefaultClass { snapshot: s },
                    action: StagingAction::ListStorageClasses,
                } && opt_text(s) == opt_text(snapshot),
            },
            (
                StagingState::DefaultClass { snapshot },
                StagingEvent::StorageClasses(classes),
            ) => match default_class(classes@) {
                Some(c) => r matches StagingStep::Ask {
                    state: StagingState::Binding { class: None, effective, snapshot: s },
                    action: StagingAction::ReadBinding { class: b },
                } && effective@ == c && b@ == c && opt_text(s) == opt_text(snapshot),
                None => self.is_ready(None, opt_text(snapshot), r),
            },
            (StagingState::Binding { class, effective, snapshot }, StagingEvent::Binding(found)) => {
                if binding_of_class(found) == BindingMode::WaitForFirstConsumer {
                    self.is_ready(opt_text(class), opt_text(snapshot), r)
                } else {
                    r matches StagingStep::Ask {
                        state: StagingState::Staged { class: a, effective: e, snapshot: s },
                        action: StagingAction::ReadStaged { name },
                    } && opt_text(a) == opt_text(class) && e@ == effective@ && opt_text(s)
                        == opt_text(snapshot) && name@ == self.staged_name()
                }
            },
            (StagingState::Staged { class, effective, snapshot }, StagingEvent::Staged(seen)) => {
                match seen {
                    None => waits(
                        r,
                        STAGED_PVC_BINDING_REASON@,
                        binding_text(self.ns@, self.staged_name(), Some(effective@)),
                    ),
                    Some(o) => match bind_wait(
                        opt_text(o.phase),
                        o.created_at,
                        self.ns@,
                        self.staged_name(),
                        Some(effective@),
                        self.timeout,
                        now,
                    ) {
                        WaitView::Ready(_) => self.is_ready(
                            opt_text(class),
                            opt_text(snapshot),
                            r,
                        ),
                        WaitView::Waiting(m) => waits(r, STAGED_PVC_BINDING_REASON@, m),
                        WaitView::Failed(reason, m) => fails(r, reason, m),
                    },
                }
            },
            _ => false,
        }
    }

    fn source_str(&self) -> (r: &str)
        ensures
            r@ == self.source_name(),
    {
        match &self.source_pvc {
            Some(s) => s.as_str(),
            None => "",
        }
    }

    fn override_str(&self) -> (r: &str)
        ensures
            r@ == self.override_class(),
    {
        match &self.staging {
            Some(s) => match &s.storage_class_name {
                Some(c) => c.as_str(),
                None => "",
            },
            None => "",
        }
    }

    fn has_override(&self) -> (r: bool)
        ensures
            r == self.overrides(),
    {
        match &self.staging {
            Some(s) => s.storage_class_name.is_some(),
            None => false,
        }
    }

    /// Whether an event can be worked on in a state.
    pub fn is_workable(&self, state: &StagingState, event: &StagingEvent) -> (r: bool)
        ensures
            r == self.workable(*state, *event),
    {
        let clones = match self.copy_method {
            CopyMethod::Clone => true,
            _ => false,
        };
        match (state, event) {
            (StagingState::Source, StagingEvent::Source(Some(p))) => !clones || self.has_override()
                || source_class(p).is_some() || is_sized(p),
            (StagingState::Driver { source }, StagingEvent::Driver(_)) => !clones
                || self.has_override() || is_sized(source),
            (StagingState::Override { source, driver }, StagingEvent::Driver(found)) => !clones
                || staged_class_preflight(
                self.override_str(),
                borrow_opt(found),
                borrow_opt(driver),
            ).is_some() || is_sized(source),
            (StagingState::Snapshot { source, .. }, StagingEvent::Snapshot(Some(o))) => {
                if o.ready {
                    is_sized(source) && is_quantity_small(borrow_opt(&o.restore_size))
                } else {
                    is_deadline_dated(self.timeout, o.created_at)
                }
            },
            (StagingState::Group { .. }, StagingEvent::Group(Some(o))) => o.ready
                || is_deadline_dated(self.timeout, o.created_at),
            (StagingState::Members { source }, StagingEvent::Members(m)) => {
                match m.get(self.source_namespace.as_str(), self.source_str()) {
                    Some(x) => is_sized(source) && is_quantity_small(borrow_opt(&x.restore_size)),
                    None => true,
                }
            },
            (StagingState::Staged { .. }, StagingEvent::Staged(Some(o))) => is_settled(
                borrow_opt(&o.phase),
            ) || is_deadline_dated(self.timeout, o.created_at),
            _ => true,
        }
    }

    /// The first step.
    pub fn begin(&self) -> (r: StagingStep)
        ensures
            self.begins(r),
            r matches StagingStep::Ask { state, .. } ==> self.reachable(state),
    {
        match staging_applicability(
            self.copy_method,
            borrow_opt(&self.source_pvc),
            self.namespaced_install,
        ) {
            StagingApplicability::NotApplicable => StagingStep::Done(StagingOutcome::NotApplicable),
            StagingApplicability::ClusterScopeRequired => {
                let message = match &self.group {
                    Some(_) => namespaced_install_cannot_group_stage_message(),
                    None => namespaced_install_cannot_stage_message(),
                };
                failed(REASON_SOURCE_NOT_CSI, message)
            },
            StagingApplicability::Proceed { source_name } => StagingStep::Ask {
                state: StagingState::Source,
                action: StagingAction::ReadSource { name: source_name.to_owned() },
            },
        }
    }

    fn go_on_with_driver(&self, source: PersistentVolumeClaim, driver: Option<String>) -> (r:
        StagingStep)
        requires
            self.valid(),
            self.reachable(StagingState::Driver { source }),
            self.copy_method == CopyMethod::Clone && !self.overrides() ==> sized(source),
        ensures
            self.goes_on_with_driver(source, opt_text(driver), r),
            r matches StagingStep::Ask { state, .. } ==> self.reachable(state),
    {
        match &self.staging {
            Some(s) => match &s.storage_class_name {
                Some(c) => {
                    return StagingStep::Ask {
                        state: StagingState::Override { source, driver },
                        action: StagingAction::ReadDriver { class: c.clone() },
                    };
                },
                None => {},
            },
            None => {},
        }
        self.capture(source, driver)
    }

    fn capture(&self, source: PersistentVolumeClaim, driver: Option<String>) -> (r: StagingStep)
        requires
            self.valid(),
            self.reachable(StagingState::Driver { source }),
            self.copy_method == CopyMethod::Clone ==> sized(source),
        ensures
            self.captures(source, opt_text(driver), r),
            r matches StagingStep::Ask { state, .. } ==> self.reachable(state),
    {
        if self.copy_method == CopyMethod::Clone {
            return self.make_staged(source, None, None);
        }
        match &self.group {
            Some(g) => {
                match group_driver(
                    self.selector.is_some(),
                    self.policy_name.as_str(),
                    self.source_index,
                    g.namespace.as_str(),
                    g.name.as_str(),
                    self.source_namespace.as_str(),
                    self.source_str(),
                    borrow_opt(&driver),
                ) {
                    Ok(d) => StagingStep::Ask {
                        state: StagingState::GroupClasses { source, driver: d.to_owned() },
                        action: StagingAction::ListGroupClasses,
                    },
                    Err(stage) => self.from_group(stage),
                }
            },
            None => match driver {
                Some(d) => StagingStep::Ask {
                    state: StagingState::Classes { source, driver: d },
                    action: StagingAction::ListClasses,
                },
                None => failed(
                    REASON_SOURCE_NOT_CSI,
                    source_not_csi_message(self.ns.as_str(), self.source_str()),
                ),
            },
        }
    }

    /// What a group's stage that is not usable comes to.
    fn from_group(&self, stage: GroupStage) -> (r: StagingStep)
        requires
            stage !is Ready,
        ensures
            match stage@ {
                GroupStageView::Waiting(reason, m) => waits(r, reason, m),
                GroupStageView::Failed(reason, m) => fails(r, reason, m),
                GroupStageView::Ready(_, _) => false,
            },
            r is Done,
    {
        match stage {
            GroupStage::Waiting { reason, message } => waiting(reason, message),
            GroupStage::Failed { reason, message } => failed(reason, message),
            GroupStage::Ready { .. } => StagingStep::Done(StagingOutcome::NotApplicable),
        }
    }

    fn make_staged(
        &self,
        source: PersistentVolumeClaim,
        snapshot: Option<String>,
        restore_size: Option<String>,
    ) -> (r: StagingStep)
        requires
            self.valid(),
            sized(source),
            quantity_fits(opt_text(restore_size)),
            self.source_pvc is Some,
            self.copy_method != CopyMethod::Direct,
            self.fills(opt_text(snapshot)),
        ensures
            self.makes_staged(source, opt_text(snapshot), opt_text(restore_size), r),
            r matches StagingStep::Ask { state, .. } ==> self.reachable(state),
    {
        let staged_name = staged_pvc_name(self.snapshot_cr.as_str());
        let vs_name = volume_snapshot_name(self.snapshot_cr.as_str());
        let filled = match &snapshot {
            Some(n) => data_source_for(self.copy_method, self.source_str(), n.as_str()),
            None => data_source_for(self.copy_method, self.source_str(), vs_name.as_str()),
        };
        let pvc = build_staged_pvc(
            staged_name.as_str(),
            self.ns.as_str(),
            &source,
            filled,
            borrow_opt(&restore_size),
            self.staging.as_ref(),
            self.owner.copy(),
        );
        let class = staged_class_of(&pvc);
        StagingStep::Ask {
            state: StagingState::StagedMade { class, snapshot },
            action: StagingAction::MakeStaged(pvc),
        }
    }

    fn ready(&self, class: Option<String>, snapshot: Option<String>) -> (r: StagingStep)
        requires
            self.valid(),
        ensures
            self.is_ready(opt_text(class), opt_text(snapshot), r),
    {
        let clone = match self.copy_method {
            CopyMethod::Clone => true,
            _ => false,
        };
        let shared: Option<String> = match &self.group {
            Some(g) => if clone {
                None
            } else {
                Some(g.name.clone())
            },
            None => None,
        };
        StagingStep::Done(
            StagingOutcome::Ready(
                StagedSource {
                    pvc_name: staged_pvc_name(self.snapshot_cr.as_str()),
                    volume_snapshot_name: snapshot,
                    volume_group_snapshot_name: shared,
                    copy_method: if clone {
                        "Clone"
                    } else {
                        "Snapshot"
                    },
                    storage_class_name: class,
                    staging_timeout_seconds: staging_timeout_seconds(self.timeout),
                },
            ),
        )
    }

    fn after_source(&self, found: Option<PersistentVolumeClaim>) -> (r: StagingStep)
        requires
            self.valid(),
            self.reachable(StagingState::Source),
            self.workable(StagingState::Source, StagingEvent::Source(found)),
        ensures
            forall|now: Moment|
                self.follows(StagingState::Source, StagingEvent::Source(found), now, r),
            r matches StagingStep::Ask { state, .. } ==> self.reachable(state),
    {
        match found {
            None => failed(
                REASON_SOURCE_NOT_CSI,
                source_pvc_not_found_message(
                    self.ns.as_str(),
                    self.source_str(),
                    self.copy_method,
                ),
            ),
            Some(p) => {
                let class: Option<String> = match source_class(&p) {
                    Some(c) => Some(c.to_owned()),
                    None => None,
                };
                match class {
                    Some(c) => StagingStep::Ask {
                        state: StagingState::Driver { source: p },
                        action: StagingAction::ReadDriver { class: c },
                    },
                    None => self.go_on_with_driver(p, None),
                }
            },
        }
    }

    fn after_override(
        &self,
        source: PersistentVolumeClaim,
        driver: Option<String>,
        found: Option<String>,
    ) -> (r: StagingStep)
        requires
            self.valid(),
            self.reachable(StagingState::Override { source, driver }),
            self.workable(StagingState::Override { source, driver }, StagingEvent::Driver(found)),
        ensures
            forall|now: Moment|
                self.follows(
                    StagingState::Override { source, driver },
                    StagingEvent::Driver(found),
                    now,
                    r,
                ),
            r matches StagingStep::Ask { state, .. } ==> self.reachable(state),
    {
        match staged_class_preflight(
            self.override_str(),
            borrow_opt(&found),
            borrow_opt(&driver),
        ) {
            Some((reason, message)) => failed(reason, message),
            None => self.capture(source, driver),
        }
    }

    fn after_classes(
        &self,
        source: PersistentVolumeClaim,
        driver: String,
        listed: Option<Vec<ClassInfo>>,
    ) -> (r: StagingStep)
        requires
            self.valid(),
            self.reachable(StagingState::Classes { source, driver }),
        ensures
            forall|now: Moment|
                self.follows(
                    StagingState::Classes { source, driver },
                    StagingEvent::Classes(listed),
                    now,
                    r,
                ),
            r matches StagingStep::Ask { state, .. } ==> self.reachable(state),
    {
        let classes = match listed {
            Some(c) => c,
            None => {
                return failed(REASON_STACK_MISSING, stack_missing_message(driver.as_str()));
            },
        };
        match decide_class(
            classes.as_slice(),
            driver.as_str(),
            borrow_opt(&self.explicit_class),
        ) {
            ClassDecision::Use(name) => {
                let vs_name = volume_snapshot_name(self.snapshot_cr.as_str());
                let vs = build_volume_snapshot(
                    vs_name.as_str(),
                    self.ns.as_str(),
                    self.source_str(),
                    Some(name.as_str()),
                    self.owner.copy(),
                );
                StagingStep::Ask {
                    state: StagingState::SnapshotMade { source, class: name },
                    action: StagingAction::MakeSnapshot(vs),
                }
            },
            ClassDecision::ExplicitNotFound(name) => failed(
                REASON_NO_CLASS,
                explicit_class_not_found_message(name.as_str(), driver.as_str()),
            ),
            ClassDecision::NoneForDriver(d) => failed(
                REASON_NO_CLASS,
                no_class_for_driver_message(d.as_str()),
            ),
            ClassDecision::Ambiguous { driver: d, candidates } => failed(
                REASON_NO_CLASS,
                ambiguous_class_message(d.as_str(), &candidates),
            ),
        }
    }

    fn after_snapshot(
        &self,
        source: PersistentVolumeClaim,
        class: String,
        seen: Option<VsObservation>,
        now: Moment,
    ) -> (r: StagingStep)
        requires
            self.valid(),
            self.reachable(StagingState::Snapshot { source, class }),
            self.workable(StagingState::Snapshot { source, class }, StagingEvent::Snapshot(seen)),
        ensures
            self.follows(
                StagingState::Snapshot { source, class },
                StagingEvent::Snapshot(seen),
                now,
                r,
            ),
            r matches StagingStep::Ask { state, .. } ==> self.reachable(state),
    {
        let vs_name = volume_snapshot_name(self.snapshot_cr.as_str());
        match seen {
            None => {
                let mut m = "waiting for VolumeSnapshot `".to_owned();
                m.append(self.ns.as_str());
                m.append("/");
                m.append(vs_name.as_str());
                m.append("` to become readyToUse");
                waiting(STAGING_WAITING_REASON, m)
            },
            Some(o) => match vs_wait_outcome(
                &o,
                self.ns.as_str(),
                vs_name.as_str(),
                class.as_str(),
                self.timeout,
                now,
            ) {
                VsWait::Ready { restore_size } => self.make_staged(
                    source,
                    Some(vs_name),
                    restore_size,
                ),
                VsWait::Waiting(m) => waiting(STAGING_WAITING_REASON, m),
                VsWait::Failed { reason, message } => failed(reason, message),
            },
        }
    }

    fn after_group_classes(
        &self,
        source: PersistentVolumeClaim,
        driver: String,
        listed: Option<Vec<ClassInfo>>,
    ) -> (r: StagingStep)
        requires
            self.valid(),
            self.reachable(StagingState::GroupClasses { source, driver }),
        ensures
            forall|now: Moment|
                self.follows(
                    StagingState::GroupClasses { source, driver },
                    StagingEvent::Classes(listed),
                    now,
                    r,
                ),
            r matches StagingStep::Ask { state, .. } ==> self.reachable(state),
    {
        let classes: Option<&[ClassInfo]> = match &listed {
            Some(c) => Some(c.as_slice()),
            None => None,
        };
        match pick_group_class(classes, driver.as_str()) {
            Err(stage) => self.from_group(stage),
            Ok(class) => match (&self.group, &self.selector) {
                (Some(g), Some(selector)) => {
                    let made = build_volume_group_snapshot(
                        g.name.as_str(),
                        g.namespace.as_str(),
                        selector,
                        class.as_str(),
                        g.name.as_str(),
                    );
                    StagingStep::Ask {
                        state: StagingState::GroupMade { source, class },
                        action: StagingAction::MakeGroup(made),
                    }
                },
                _ => StagingStep::Done(StagingOutcome::NotApplicable),
            },
        }
    }

    fn after_group(
        &self,
        source: PersistentVolumeClaim,
        class: String,
        seen: Option<VgsObservation>,
        now: Moment,
    ) -> (r: StagingStep)
        requires
            self.valid(),
            self.reachable(StagingState::Group { source, class }),
            self.workable(StagingState::Group { source, class }, StagingEvent::Group(seen)),
        ensures
            self.follows(StagingState::Group { source, class }, StagingEvent::Group(seen), now, r),
            r matches StagingStep::Ask { state, .. } ==> self.reachable(state),
    {
        match &self.group {
            Some(g) => match group_wait_stage(
                seen.as_ref(),
                g.namespace.as_str(),
                g.name.as_str(),
                class.as_str(),
                self.timeout,
                now,
            ) {
                Ok(_) => StagingStep::Ask {
                    state: StagingState::Members { source },
                    action: StagingAction::ListMembers,
                },
                Err(stage) => self.from_group(stage),
            },
            None => StagingStep::Done(StagingOutcome::NotApplicable),
        }
    }

    fn after_members(&self, source: PersistentVolumeClaim, members: GroupMembers) -> (r: StagingStep)
        requires
            self.valid(),
            self.reachable(StagingState::Members { source }),
            self.workable(StagingState::Members { source }, StagingEvent::Members(members)),
        ensures
            forall|now: Moment|
                self.follows(
                    StagingState::Members { source },
                    StagingEvent::Members(members),
                    now,
                    r,
                ),
            r matches StagingStep::Ask { state, .. } ==> self.reachable(state),
    {
        match &self.group {
            Some(g) => {
                let stage = group_member_stage(
                    &members,
                    g.namespace.as_str(),
                    g.name.as_str(),
                    self.source_namespace.as_str(),
                    self.source_str(),
                );
                match stage {
                    GroupStage::Ready { member } => {
                        assert(members@.dom().contains(
                            (self.source_namespace@, self.source_name()),
                        ));
                        self.make_staged(
                            source,
                            Some(member.volume_snapshot_name),
                            member.restore_size,
                        )
                    },
                    other => self.from_group(other),
                }
            },
            None => StagingStep::Done(StagingOutcome::NotApplicable),
        }
    }

    fn after_staged(
        &self,
        class: Option<String>,
        effective: String,
        snapshot: Option<String>,
        seen: Option<StagedPvcObservation>,
        now: Moment,
    ) -> (r: StagingStep)
        requires
            self.valid(),
            self.workable(
                StagingState::Staged { class, effective, snapshot },
                StagingEvent::Staged(seen),
            ),
        ensures
            self.follows(
                StagingState::Staged { class, effective, snapshot },
                StagingEvent::Staged(seen),
                now,
                r,
            ),
            r is Done,
    {
        let staged_name = staged_pvc_name(self.snapshot_cr.as_str());
        match seen {
            None => waiting(
                STAGED_PVC_BINDING_REASON,
                binding_message(
                    self.ns.as_str(),
                    staged_name.as_str(),
                    Some(effective.as_str()),
                ),
            ),
            Some(o) => match pvc_bind_outcome(
                &o,
                self.ns.as_str(),
                staged_name.as_str(),
                Some(effective.as_str()),
                self.timeout,
                now,
            ) {
                PvcBindWait::Bound => self.ready(class, snapshot),
                PvcBindWait::Waiting(m) => waiting(STAGED_PVC_BINDING_REASON, m),
                PvcBindWait::Failed { reason, message } => failed(reason, message),
            },
        }
    }

    /// The next step, from what was found or done in a state.
    pub fn advance(&self, state: StagingState, event: StagingEvent, now: Moment) -> (r: StagingStep)
        requires
            self.valid(),
            self.reachable(state),
            self.awaited(state, event),
            self.workable(state, event),
        ensures
            self.follows(state, event, now, r),
            r matches StagingStep::Ask { state: next, .. } ==> self.reachable(next),
    {
        match (state, event) {
            (StagingState::Source, StagingEvent::Source(found)) => self.after_source(found),
            (StagingState::Driver { source }, StagingEvent::Driver(driver)) => {
                self.go_on_with_driver(source, driver)
            },
            (StagingState::Override { source, driver }, StagingEvent::Driver(found)) => {
                self.after_override(source, driver, found)
            },
            (StagingState::Classes { source, driver }, StagingEvent::Classes(listed)) => {
                self.after_classes(source, driver, listed)
            },
            (StagingState::SnapshotMade { source, class }, StagingEvent::Made) => StagingStep::Ask {
                state: StagingState::Snapshot { source, class },
                action: StagingAction::ReadSnapshot {
                    name: volume_snapshot_name(self.snapshot_cr.as_str()),
                },
            },
            (StagingState::Snapshot { source, class }, StagingEvent::Snapshot(seen)) => {
                self.after_snapshot(source, class, seen, now)
            },
            (StagingState::GroupClasses { source, driver }, StagingEvent::Classes(listed)) => {
                self.after_group_classes(source, driver, listed)
            },
            (StagingState::GroupMade { source, class }, StagingEvent::Made) => StagingStep::Ask {
                state: StagingState::Group { source, class },
                action: StagingAction::ReadGroup,
            },
            (StagingState::Group { source, class }, StagingEvent::Group(seen)) => {
                self.after_group(source, class, seen, now)
            },
            (StagingState::Members { source }, StagingEvent::Members(members)) => {
                self.after_members(source, members)
            },
            (StagingState::StagedMade { class, snapshot }, StagingEvent::Made) => match class {
                Some(c) => StagingStep::Ask {
                    state: StagingState::Binding {
                        class: Some(c.clone()),
                        effective: c.clone(),
                        snapshot,
                    },
                    action: StagingAction::ReadBinding { class: c },
                },
                None => StagingStep::Ask {
                    state: StagingState::DefaultClass { snapshot },
                    action: StagingAction::ListStorageClasses,
                },
            },
            (
                StagingState::DefaultClass { snapshot },
                StagingEvent::StorageClasses(classes),
            ) => match default_storage_class(&classes) {
                Some(c) => StagingStep::Ask {
                    state: StagingState::Binding { class: None, effective: c.clone(), snapshot },
                    action: StagingAction::ReadBinding { class: c },
                },
                None => self.ready(None, snapshot),
            },
            (StagingState::Binding { class, effective, snapshot }, StagingEvent::Binding(found)) => {
                let mode = match &found {
                    Some(m) => effective_binding_mode(borrow_opt(m)),
                    None => BindingMode::Immediate,
                };
                match mode {
                    BindingMode::WaitForFirstConsumer => self.ready(class, snapshot),
                    BindingMode::Immediate => StagingStep::Ask {
                        state: StagingState::Staged { class, effective, snapshot },
                        action: StagingAction::ReadStaged {
                            name: staged_pvc_name(self.snapshot_cr.as_str()),
                        },
                    },
                }
            },
            (StagingState::Staged { class, effective, snapshot }, StagingEvent::Staged(seen)) => {
                self.after_staged(class, effective, snapshot, seen, now)
            },
            _ => StagingStep::Done(StagingOutcome::NotApplicable),
        }
    }
}

/// How far a state is on the way.
pub open spec fn progress(state: StagingState) -> int {
    match state {
        StagingState::Source => 0,
        StagingState::Driver { .. } => 1,
        StagingState::Override { .. } => 2,
        StagingState::Classes { .. } => 3,
        StagingState::GroupClasses { .. } => 3,
        StagingState::SnapshotMade { .. } => 4,
        StagingState::GroupMade { .. } => 4,
        StagingState::Snapshot { .. } => 5,
        StagingState::Group { .. } => 5,
        StagingState::Members { .. } => 6,
        StagingState::StagedMade { .. } => 7,
        StagingState::DefaultClass { .. } => 8,
        StagingState::Binding { .. } => 9,
        StagingState::Staged { .. } => 10,
    }
}

/// Staging comes to an end: every step is the outcome or leads further.
pub proof fn lemma_staging_moves_on(
    plan: StagingPlan,
    state: StagingState,
    event: StagingEvent,
    now: Moment,
    r: StagingStep,
)
    requires
        plan.follows(state, event, now, r),
    ensures
        match r {
            StagingStep::Ask { state: next, .. } => progress(state) < progress(next) <= 10,
            StagingStep::Done(_) => true,
        },
{
}

/// A source counts as staged only once its staged claim was made, and where its
/// volumes are bound at once, only once it was seen bound.
pub proof fn lemma_ready_only_behind_the_staged_claim(
    plan: StagingPlan,
    state: StagingState,
    event: StagingEvent,
    now: Moment,
    s: StagedSource,
)
    requires
        plan.follows(state, event, now, StagingStep::Done(StagingOutcome::Ready(s))),
    ensures
        progress(state) > progress(
            StagingState::StagedMade { class: None, snapshot: None },
        ),
        state is Staged ==> (event matches StagingEvent::Staged(Some(o)) && opt_text(o.phase)
            == Some("Bound"@)),
        state is Binding ==> (event matches StagingEvent::Binding(found) && binding_of_class(found)
            == BindingMode::WaitForFirstConsumer),
        s.pvc_name@ == plan.staged_name(),
{
}

/// A staged source names the snapshot that it was filled from: none where it was
/// cloned, the plan's own where it was captured alone, and one of the shared
/// snapshot's where it was captured with its group. Only then is the shared one named.
pub proof fn lemma_ready_names_its_snapshot(
    plan: StagingPlan,
    state: StagingState,
    event: StagingEvent,
    now: Moment,
    s: StagedSource,
)
    requires
        plan.reachable(state),
        plan.follows(state, event, now, StagingStep::Done(StagingOutcome::Ready(s))),
    ensures
        plan.fills(opt_text(s.volume_snapshot_name)),
        s.volume_snapshot_name is None <==> s.copy_method@ == "Clone"@,
        s.volume_group_snapshot_name is Some <==> plan.grouped(),
{
    reveal_strlit("Clone");
    reveal_strlit("Snapshot");
    assert("Clone"@.len() != "Snapshot"@.len());
}

/// What a step of removing says.
pub enum CleanupStepView {
    /// Delete a mover's pod.
    DeletePod(Seq<char>),
    /// Let a volume go with its claim.
    ReclaimVolume(Seq<char>),
    /// Delete the staged claim.
    DeleteClaim(Seq<char>),
    /// Remove the shared snapshot, if nobody needs it any more.
    ReapGroup(Seq<char>, Seq<char>),
    /// Delete the snapshot, if it is there.
    DeleteSnapshot(Seq<char>),
}

impl View for CleanupStep {
    type V = CleanupStepView;

    open spec fn view(&self) -> CleanupStepView {
        match self {
            CleanupStep::DeletePod { name } => CleanupStepView::DeletePod(name@),
            CleanupStep::ReclaimVolume { name } => CleanupStepView::ReclaimVolume(name@),
            CleanupStep::DeleteClaim { name } => CleanupStepView::DeleteClaim(name@),
            CleanupStep::ReapGroup { namespace, name } => CleanupStepView::ReapGroup(
                namespace@,
                name@,
            ),
            CleanupStep::DeleteSnapshot { name } => CleanupStepView::DeleteSnapshot(name@),
        }
    }
}

/// What a list of steps says.
pub open spec fn step_views(v: Seq<CleanupStep>) -> Seq<CleanupStepView> {
    v.map_values(|s: CleanupStep| s@)
}

/// The deletion of those of the pods that have a name.
pub open spec fn pod_steps(pods: Seq<Option<String>>) -> Seq<CleanupStepView>
    decreases pods.len(),
{
    if pods.len() == 0 {
        Seq::empty()
    } else {
        match pods.last() {
            Some(n) => pod_steps(pods.drop_last()).push(CleanupStepView::DeletePod(n@)),
            None => pod_steps(pods.drop_last()),
        }
    }
}

/// The removal of a staged claim: first the pods that hold it, then its volume is
/// let go, then the claim goes.
pub open spec fn claim_steps(
    cr: Seq<char>,
    staged: Option<PersistentVolumeClaim>,
    pods: Seq<Option<String>>,
) -> Seq<CleanupStepView> {
    match staged {
        Some(pvc) => pod_steps(pods) + (match bound_volume(pvc.spec) {
            Some(v) => seq![CleanupStepView::ReclaimVolume(v)],
            None => Seq::empty(),
        }) + seq![CleanupStepView::DeleteClaim(child_name(cr, "src"@))],
        None => Seq::empty(),
    }
}

/// The last step of removing: the shared snapshot, or else the own one.
pub open spec fn capture_step(cr: Seq<char>, group: Option<GroupPin>) -> CleanupStepView {
    match group {
        Some(g) => CleanupStepView::ReapGroup(g.namespace@, g.name@),
        None => CleanupStepView::DeleteSnapshot(child_name(cr, "snap"@)),
    }
}

/// The selector of the pods of a `Snapshot`'s mover.
pub fn mover_pod_selector(snapshot_cr: &str) -> (r: String)
    ensures
        r@ == "batch.kubernetes.io/job-name="@ + snapshot_cr@,
{
    let mut out = "batch.kubernetes.io/job-name=".to_owned();
    out.append(snapshot_cr);
    out
}

/// The steps that remove what staging has made, from the staged claim and the
/// pods of its mover that were found. The Job of the mover stays. A member of a group
/// leaves its own snapshot to the shared one.
pub fn plan_cleanup(
    snapshot_cr: &str,
    staged: Option<&PersistentVolumeClaim>,
    pods: &Vec<Option<String>>,
    group: Option<&GroupPin>,
) -> (r: Vec<CleanupStep>)
    requires
        can_name(snapshot_cr@, "src"@),
        can_name(snapshot_cr@, "snap"@),
    ensures
        step_views(r@) == claim_steps(
            snapshot_cr@,
            match staged {
                Some(p) => Some(*p),
                None => None,
            },
            pods@,
        ).push(
            capture_step(
                snapshot_cr@,
                match group {
                    Some(g) => Some(*g),
                    None => None,
                },
            ),
        ),
{
    let mut out: Vec<CleanupStep> = Vec::new();
    assert(step_views(out@) =~= Seq::empty());
    if let Some(pvc) = staged {
        let mut i: usize = 0;
        assert(pods@.take(0) =~= Seq::empty());
        while i < pods.len()
            invariant
                i <= pods@.len(),
                step_views(out@) == pod_steps(pods@.take(i as int)),
            decreases pods@.len() - i,
        {
            assert(pods@.take(i + 1).drop_last() =~= pods@.take(i as int));
            if let Some(n) = &pods[i] {
                let ghost was = out@;
                out.push(CleanupStep::DeletePod { name: n.clone() });
                assert(step_views(out@) =~= step_views(was).push(
                    CleanupStepView::DeletePod(n@),
                ));
            }
            i += 1;
        }
        assert(pods@.take(i as int) =~= pods@);
        if let Some(v) = cleanup_plan(pvc).reclaim_pv {
            let ghost was = out@;
            let ghost name = v@;
            out.push(CleanupStep::ReclaimVolume { name: v });
            assert(step_views(out@) =~= step_views(was) + seq![
                CleanupStepView::ReclaimVolume(name),
            ]);
        } else {
            assert(step_views(out@) =~= step_views(out@) + Seq::<CleanupStepView>::empty());
        }
        let ghost was = out@;
        out.push(CleanupStep::DeleteClaim { name: staged_pvc_name(snapshot_cr) });
        assert(step_views(out@) =~= step_views(was) + seq![
            CleanupStepView::DeleteClaim(child_name(snapshot_cr@, "src"@)),
        ]);
    }
    let ghost was = out@;
    match group {
        Some(g) => {
            out.push(
                CleanupStep::ReapGroup { namespace: g.namespace.clone(), name: g.name.clone() },
            );
        },
        None => {
            out.push(CleanupStep::DeleteSnapshot { name: volume_snapshot_name(snapshot_cr) });
        },
    }
    assert(step_views(out@) =~= step_views(was).push(
        capture_step(
            snapshot_cr@,
            match group {
                Some(g) => Some(*g),
                None => None,
            },
        ),
    ));
    out
}

proof fn lemma_pod_steps_delete_pods(pods: Seq<Option<String>>)
    ensures
        forall|i: int|
            0 <= i < pod_steps(pods).len() ==> #[trigger] pod_steps(pods)[i] is DeletePod,
    decreases pods.len(),
{
    if pods.len() > 0 {
        lemma_pod_steps_delete_pods(pods.drop_last());
    }
}

/// The staged claim goes after everything that holds it or would outlive it:
/// behind its deletion stands the capture alone, and a member of a group never deletes
/// a snapshot.
pub proof fn lemma_cleanup_order(
    cr: Seq<char>,
    staged: PersistentVolumeClaim,
    pods: Seq<Option<String>>,
    group: Option<GroupPin>,
)
    ensures
        ({
            let steps = claim_steps(cr, Some(staged), pods).push(capture_step(cr, group));
            let n = steps.len();
            &&& n >= 2
            &&& steps[n - 2] is DeleteClaim
            &&& forall|i: int| 0 <= i < n - 2 ==> (#[trigger] steps[i] is DeletePod || steps[i]
                is ReclaimVolume)
            &&& steps[n - 1] is DeleteSnapshot <==> group is None
        }),
{
    lemma_pod_steps_delete_pods(pods);
    let steps = claim_steps(cr, Some(staged), pods).push(capture_step(cr, group));
    let n = steps.len();
    assert forall|i: int| 0 <= i < n - 2 implies (#[trigger] steps[i] is DeletePod || steps[i]
        is ReclaimVolume) by {
        if i < pod_steps(pods).len() {
            assert(steps[i] == pod_steps(pods)[i]);
        }
    }
}

/// The patch that has a volume go with its claim, whatever its class says.
pub fn reclaim_patch() -> (r: Json)
    ensures
        tree(r) == Tree::Object(
            Map::<Seq<char>, Tree>::empty().insert(
                "spec"@,
                Tree::Object(
                    Map::<Seq<char>, Tree>::empty().insert(
                        "persistentVolumeReclaimPolicy"@,
                        Tree::Text("Delete"@),
                    ),
                ),
            ),
        ),
{
    entry("spec", entry("persistentVolumeReclaimPolicy", Json::Text("Delete".to_owned())))
}

/// How staging begins: not at all where the live source is mounted or there is none, with a
/// refusal where the install may not read what it takes, and otherwise with a look at the
/// source by its name.
pub proof fn lemma_how_staging_begins(plan: StagingPlan, r: StagingStep)
    requires
        plan.begins(r),
    ensures
        r == StagingStep::Done(StagingOutcome::NotApplicable) <==> plan.copy_method
            == CopyMethod::Direct || plan.source_pvc is None,
        (r matches StagingStep::Done(o) && o is Failed) <==> plan.copy_method != CopyMethod::Direct
            && plan.source_pvc is Some && plan.namespaced_install,
        r matches StagingStep::Done(o) ==> o !is Ready && o !is Waiting,
        r matches StagingStep::Ask { state, action } ==> state is Source && (action matches
            StagingAction::ReadSource { name } && plan.source_pvc matches Some(s) && name@ == s@),
{
}

/// What the staged claim is made of: it asks for the larger of the snapshot and the source,
/// is filled from the snapshot, or from the source itself for a clone, keeps the source's
/// volume mode, is bound to no volume yet, and goes with the `Snapshot`.
pub proof fn lemma_what_the_staged_claim_is_made_of(
    plan: StagingPlan,
    source: PersistentVolumeClaim,
    snapshot: Option<Seq<char>>,
    size: Option<Seq<char>>,
    r: StagingStep,
)
    requires
        plan.makes_staged(source, snapshot, size, r),
    ensures
        r matches StagingStep::Ask {
            state: StagingState::StagedMade { class: kept, snapshot: from },
            action: StagingAction::MakeStaged(pvc),
        } && {
            &&& opt_text(from) == snapshot
            &&& opt_text(kept) == staged_class(plan.staging, source.spec)
            &&& pvc.labels is Some && opt_map(pvc.labels) == made_labels(
                "kopiur.home-operations.com/component"@,
                "staged-source"@,
            )
            &&& pvc.created_at is None && pvc.phase is None
            &&& opt_text(pvc.name) == Some(child_name(plan.snapshot_cr@, "src"@))
            &&& opt_text(pvc.namespace) == Some(plan.ns@)
            &&& pvc.owner_references@.len() == 1 && pvc.owner_references@[0] == plan.owner
            &&& pvc.spec is Some
            &&& opt_text(pvc.spec->0.storage_request) == larger_quantity(
                size,
                match source.spec {
                    Some(s) => opt_text(s.storage_request),
                    None => None,
                },
            )
            &&& opt_text(pvc.spec->0.storage_class_name) == staged_class(plan.staging, source.spec)
            &&& opt_texts(pvc.spec->0.access_modes) == staged_modes(plan.staging, source.spec)
            &&& pvc.spec->0.volume_name is None
            &&& opt_text(pvc.spec->0.volume_mode) == (match source.spec {
                Some(s) => opt_text(s.volume_mode),
                None => None,
            })
            &&& pvc.spec->0.data_source is Some
            &&& plan.copy_method == CopyMethod::Clone ==> pvc.spec->0.data_source->0.kind@
                == "PersistentVolumeClaim"@ && pvc.spec->0.data_source->0.name@ == plan.source_name()
            &&& plan.copy_method != CopyMethod::Clone ==> pvc.spec->0.data_source->0.kind@
                == "VolumeSnapshot"@
            &&& plan.copy_method != CopyMethod::Clone && snapshot is Some
                ==> pvc.spec->0.data_source->0.name@ == snapshot->0
        },
{
}

/// What follows on the source: its absence fails, and otherwise its class is looked up
/// first, where it has one.
pub proof fn lemma_after_the_source(
    plan: StagingPlan,
    found: Option<PersistentVolumeClaim>,
    now: Moment,
    r: StagingStep,
)
    requires
        plan.follows(StagingState::Source, StagingEvent::Source(found), now, r),
    ensures
        found is None ==> (r matches StagingStep::Done(StagingOutcome::Failed { reason, .. }) && reason@
            == REASON_SOURCE_NOT_CSI@),
        found matches Some(p) ==> (class_of(p) matches Some(c) ==> (r matches StagingStep::Ask {
            state: StagingState::Driver { source },
            action: StagingAction::ReadDriver { class },
        } && source == p && class@ == c)),
        found matches Some(p) ==> (class_of(p) is None ==> plan.goes_on_with_driver(p, None, r)),
{
}

/// What follows on the driver: a class that the policy asks for is looked at before
/// anything is made; a capture of a group needs its selector and the driver, one of the
/// source alone the driver, and a clone neither.
pub proof fn lemma_after_the_driver(
    plan: StagingPlan,
    source: PersistentVolumeClaim,
    driver: Option<Seq<char>>,
    r: StagingStep,
)
    requires
        plan.goes_on_with_driver(source, driver, r),
    ensures
        (plan.staging matches Some(s) && s.storage_class_name is Some) ==> (r matches
            StagingStep::Ask {
            state: StagingState::Override { source: kept, driver: known },
            action: StagingAction::ReadDriver { class },
        } && kept == source && opt_text(known) == driver && Some(class@) == opt_text(
            plan.staging->0.storage_class_name,
        )),
        !(plan.staging matches Some(s) && s.storage_class_name is Some) ==> plan.captures(
            source,
            driver,
            r,
        ),
{
}

/// How the capture begins.
pub proof fn lemma_how_a_capture_begins(
    plan: StagingPlan,
    source: PersistentVolumeClaim,
    driver: Option<Seq<char>>,
    r: StagingStep,
)
    requires
        plan.captures(source, driver, r),
    ensures
        plan.copy_method == CopyMethod::Clone ==> plan.makes_staged(source, None, None, r),
        plan.copy_method != CopyMethod::Clone && plan.group is None && driver is Some ==> (r matches
            StagingStep::Ask {
            state: StagingState::Classes { source: s, driver: d },
            action: StagingAction::ListClasses,
        } && s == source && Some(d@) == driver),
        plan.copy_method != CopyMethod::Clone && plan.group is None && driver is None ==> (r matches
            StagingStep::Done(StagingOutcome::Failed { reason, .. }) && reason@
            == REASON_SOURCE_NOT_CSI@),
        plan.copy_method != CopyMethod::Clone && plan.group is Some && plan.selector is None ==> (
        r matches StagingStep::Done(StagingOutcome::Failed { reason, .. }) && reason@
            == REASON_GROUP_MEMBER_MISSING@),
        plan.copy_method != CopyMethod::Clone && plan.group is Some && plan.selector is Some
            && driver is None ==> (r matches StagingStep::Done(
            StagingOutcome::Failed { reason, .. },
        ) && reason@ == REASON_NO_GROUP_CLASS@),
        plan.copy_method != CopyMethod::Clone && plan.group is Some && plan.selector is Some
            && driver is Some ==> (r matches StagingStep::Ask {
            state: StagingState::GroupClasses { source: s, driver: d },
            action: StagingAction::ListGroupClasses,
        } && s == source && Some(d@) == driver),
{
}

/// What follows on the class that the policy asks for: a fault ends it, and nothing is made
/// before that is known.
pub proof fn lemma_after_the_override(
    plan: StagingPlan,
    source: PersistentVolumeClaim,
    driver: Option<String>,
    found: Option<String>,
    now: Moment,
    r: StagingStep,
)
    requires
        plan.overrides(),
        plan.follows(
            StagingState::Override { source, driver },
            StagingEvent::Driver(found),
            now,
            r,
        ),
    ensures
        ({
            let class = opt_text(plan.staging->0.storage_class_name)->0;
            match preflight_fault(class, opt_text(found), opt_text(driver)) {
                Some(f) => fails(r, f.0, f.1),
                None => plan.captures(source, opt_text(driver), r),
            }
        }),
{
}

/// What follows on the classes: a snapshot of the source by the class that is chosen, and a
/// failure where there is none to choose.
pub proof fn lemma_after_the_classes(
    plan: StagingPlan,
    source: PersistentVolumeClaim,
    driver: String,
    listed: Option<Vec<ClassInfo>>,
    now: Moment,
    r: StagingStep,
)
    requires
        plan.follows(
            StagingState::Classes { source, driver },
            StagingEvent::Classes(listed),
            now,
            r,
        ),
    ensures
        listed is None ==> (r matches StagingStep::Done(StagingOutcome::Failed { reason, .. })
            && reason@ == REASON_STACK_MISSING@),
        listed matches Some(v) ==> (chosen_class(v@, driver@, opt_text(plan.explicit_class)) !is Use
            ==> (r matches StagingStep::Done(StagingOutcome::Failed { reason, .. }) && reason@
            == REASON_NO_CLASS@)),
        listed matches Some(v) ==> (chosen_class(
            v@,
            driver@,
            opt_text(plan.explicit_class),
        ) matches ClassDecisionView::Use(name) ==> (r matches StagingStep::Ask {
            state: StagingState::SnapshotMade { source: s, class },
            action: StagingAction::MakeSnapshot(vs),
        } && s == source && class@ == name && vs.name@ == child_name(plan.snapshot_cr@, "snap"@)
            && vs.namespace@ == plan.ns@ && vs.kind@ == "VolumeSnapshot"@ && tree(vs.data)
            == snapshot_data(plan.source_name(), Some(name)))),
{
}

/// What follows on the snapshot: it is waited for as long as its deadline allows, and what
/// is staged is restored from it and no other.
pub proof fn lemma_after_the_snapshot(
    plan: StagingPlan,
    source: PersistentVolumeClaim,
    class: String,
    seen: Option<VsObservation>,
    now: Moment,
    r: StagingStep,
)
    requires
        plan.follows(
            StagingState::Snapshot { source, class },
            StagingEvent::Snapshot(seen),
            now,
            r,
        ),
    ensures
        seen is None ==> (r matches StagingStep::Done(o) && o is Waiting),
        seen matches Some(o) ==> (o.ready ==> plan.makes_staged(
            source,
            Some(child_name(plan.snapshot_cr@, "snap"@)),
            opt_text(o.restore_size),
            r,
        )),
        seen matches Some(o) ==> (!o.ready && !expired(plan.timeout, o.created_at, now) ==> (r matches
            StagingStep::Done(d) && d is Waiting)),
        seen matches Some(o) ==> (!o.ready && expired(plan.timeout, o.created_at, now) ==> (r matches
            StagingStep::Done(d) && d is Failed)),
{
}

/// What follows on the classes of a group, and on the group: one shared snapshot under the
/// group's own name and selector, which is waited for as a single one is.
pub proof fn lemma_after_the_group(
    plan: StagingPlan,
    source: PersistentVolumeClaim,
    class: String,
    seen: Option<VgsObservation>,
    now: Moment,
    r: StagingStep,
)
    requires
        plan.follows(StagingState::Group { source, class }, StagingEvent::Group(seen), now, r),
    ensures
        seen is None ==> (r matches StagingStep::Done(o) && o is Waiting),
        seen matches Some(o) ==> (o.ready ==> (r matches StagingStep::Ask {
            state: StagingState::Members { source: s },
            action: StagingAction::ListMembers,
        } && s == source)),
        seen matches Some(o) ==> (!o.ready && !expired(plan.timeout, o.created_at, now) ==> (r matches
            StagingStep::Done(d) && d is Waiting)),
        seen matches Some(o) ==> (!o.ready && expired(plan.timeout, o.created_at, now) ==> (r matches
            StagingStep::Done(d) && d is Failed)),
{
}

/// The shared snapshot that is made, where the driver has a class to choose.
pub proof fn lemma_after_the_group_classes(
    plan: StagingPlan,
    source: PersistentVolumeClaim,
    driver: String,
    listed: Option<Vec<ClassInfo>>,
    now: Moment,
    r: StagingStep,
)
    requires
        plan.follows(
            StagingState::GroupClasses { source, driver },
            StagingEvent::Classes(listed),
            now,
            r,
        ),
    ensures
        ({
            let chosen = group_class(
                match listed {
                    Some(c) => Some(c@),
                    None => None,
                },
                driver@,
            );
            &&& chosen is Fail ==> (r matches StagingStep::Done(StagingOutcome::Failed { reason, .. })
                && reason@ == REASON_NO_GROUP_CLASS@)
            &&& chosen matches GroupClassView::Use(name) ==> (r matches StagingStep::Ask {
                state: StagingState::GroupMade { source: s, class },
                action: StagingAction::MakeGroup(g),
            } && s == source && class@ == name && g.name@ == plan.group->0.name@ && g.namespace@
                == plan.group->0.namespace@ && g.kind@ == "VolumeGroupSnapshot"@
                && g.owner_references@.len() == 0 && tree(g.data) == group_data(
                name,
                tree(plan.selector->0),
            ))
        }),
{
}

/// What follows on the members: the source's own snapshot is staged, found by its namespace
/// and name; without one it fails, and no neighbour's takes its place.
pub proof fn lemma_after_the_members(
    plan: StagingPlan,
    source: PersistentVolumeClaim,
    members: GroupMembers,
    now: Moment,
    r: StagingStep,
)
    requires
        plan.follows(StagingState::Members { source }, StagingEvent::Members(members), now, r),
    ensures
        members@.dom().contains((plan.source_namespace@, plan.source_name())) ==> plan.makes_staged(
            source,
            Some(members@[(plan.source_namespace@, plan.source_name())].0),
            members@[(plan.source_namespace@, plan.source_name())].1,
            r,
        ),
        !members@.dom().contains((plan.source_namespace@, plan.source_name())) ==> (r matches
            StagingStep::Done(StagingOutcome::Failed { reason, .. }) && reason@
            == REASON_GROUP_MEMBER_MISSING@),
{
}

/// What follows once the staged claim is made: how its class binds volumes is looked up, by
/// the class that it asks for or else by the cluster's default.
pub proof fn lemma_after_the_staged_claim_is_made(
    plan: StagingPlan,
    class: Option<String>,
    snapshot: Option<String>,
    now: Moment,
    r: StagingStep,
)
    requires
        plan.follows(StagingState::StagedMade { class, snapshot }, StagingEvent::Made, now, r),
    ensures
        class matches Some(c) ==> (r matches StagingStep::Ask {
            state: StagingState::Binding { class: a, effective, snapshot: s },
            action: StagingAction::ReadBinding { class: b },
        } && opt_text(a) == Some(c@) && b@ == c@ && effective@ == c@ && opt_text(s) == opt_text(
            snapshot,
        )),
        class is None ==> (r matches StagingStep::Ask {
            state: StagingState::DefaultClass { snapshot: s },
            action: StagingAction::ListStorageClasses,
        } && opt_text(s) == opt_text(snapshot)),
{
}

/// What follows on how volumes are bound: a claim that waits for its consumer is ready as
/// it is, any other has to be seen bound. The outcome tells what was staged.
pub proof fn lemma_after_the_binding(
    plan: StagingPlan,
    class: Option<String>,
    effective: String,
    snapshot: Option<String>,
    found: Option<Option<String>>,
    now: Moment,
    r: StagingStep,
)
    requires
        plan.follows(
            StagingState::Binding { class, effective, snapshot },
            StagingEvent::Binding(found),
            now,
            r,
        ),
    ensures
        (found matches Some(Some(mode)) && mode@ == "WaitForFirstConsumer"@) ==> plan.is_ready(
            opt_text(class),
            opt_text(snapshot),
            r,
        ),
        !(found matches Some(Some(mode)) && mode@ == "WaitForFirstConsumer"@) ==> (r matches
            StagingStep::Ask {
            state: StagingState::Staged { class: a, snapshot: s, effective: e },
            action: StagingAction::ReadStaged { name },
        } && name@ == child_name(plan.snapshot_cr@, "src"@) && opt_text(a) == opt_text(class) && e@
            == effective@ && opt_text(s) == opt_text(snapshot)),
{
}

/// How a look at the staged claim ends: it is ready where it is bound, failed where its
/// volume is lost or its time is up, and waited for otherwise.
pub proof fn lemma_after_the_staged_claim_is_seen(
    plan: StagingPlan,
    class: Option<String>,
    effective: String,
    snapshot: Option<String>,
    seen: Option<StagedPvcObservation>,
    now: Moment,
    r: StagingStep,
)
    requires
        plan.follows(
            StagingState::Staged { class, effective, snapshot },
            StagingEvent::Staged(seen),
            now,
            r,
        ),
    ensures
        seen is None ==> (r matches StagingStep::Done(o) && o is Waiting),
        seen matches Some(o) ==> (opt_text(o.phase) == Some("Bound"@) ==> plan.is_ready(
            opt_text(class),
            opt_text(snapshot),
            r,
        )),
        seen matches Some(o) ==> (opt_text(o.phase) == Some("Lost"@) ==> (r matches
            StagingStep::Done(d) && d is Failed)),
        seen matches Some(o) ==> (opt_text(o.phase) != Some("Bound"@) && opt_text(o.phase) != Some(
            "Lost"@,
        ) ==> (r matches StagingStep::Done(d) && (if expired(plan.timeout, o.created_at, now) {
            d is Failed
        } else {
            d is Waiting
        }))),
{
    lemma_how_binding_stands(
        opt_text(seen->0.phase),
        seen->0.created_at,
        plan.ns@,
        plan.staged_name(),
        Some(effective@),
        plan.timeout,
        now,
    );
    reveal_strlit("Bound");
    reveal_strlit("Lost");
    assert("Bound"@.len() != "Lost"@.len());
}

/// What a successful end tells: the staged claim, what it was made from and how, its class,
/// and the seconds that the policy allows.
pub proof fn lemma_what_a_ready_source_tells(
    plan: StagingPlan,
    class: Option<Seq<char>>,
    snapshot: Option<Seq<char>>,
    r: StagingStep,
)
    requires
        plan.is_ready(class, snapshot, r),
    ensures
        r matches StagingStep::Done(StagingOutcome::Ready(s)) && {
            &&& s.pvc_name@ == child_name(plan.snapshot_cr@, "src"@)
            &&& opt_text(s.volume_snapshot_name) == snapshot
            &&& opt_text(s.storage_class_name) == class
            &&& plan.copy_method == CopyMethod::Clone ==> s.copy_method@ == "Clone"@
                && s.volume_group_snapshot_name is None
            &&& plan.copy_method != CopyMethod::Clone ==> s.copy_method@ == "Snapshot"@
                && opt_text(s.volume_group_snapshot_name) == (match plan.group {
                Some(g) => Some(g.name@),
                None => None,
            })
            &&& plan.timeout is None ==> s.staging_timeout_seconds == 0
            &&& (plan.timeout matches Some(t) && t.secs <= 0x7fff_ffff_ffff_ffff)
                ==> s.staging_timeout_seconds == plan.timeout->0.secs
        },
{
}

/// The default storage class is the first that is annotated as such, by its name.
pub proof fn lemma_the_default_storage_class(
    classes: Seq<(Option<String>, Option<String>)>,
    at: int,
)
    ensures
        (forall|i: int|
            0 <= i < classes.len() ==> opt_text((#[trigger] classes[i]).1) != Some("true"@))
            ==> default_class(classes) is None,
        (0 <= at < classes.len() && opt_text(classes[at].1) == Some("true"@) && forall|i: int|
            0 <= i < at ==> opt_text((#[trigger] classes[i]).1) != Some("true"@)) ==> default_class(
            classes,
        ) == opt_text(classes[at].0),
    decreases classes.len(),
{
    if classes.len() > 0 {
        let rest = classes.drop_first();
        lemma_the_default_storage_class(rest, at - 1);
        assert(classes[0] == classes.first());
        if forall|i: int|
            0 <= i < classes.len() ==> opt_text((#[trigger] classes[i]).1) != Some("true"@) {
            assert forall|i: int| 0 <= i < rest.len() implies opt_text((#[trigger] rest[i]).1) != Some(
                "true"@,
            ) by {
                assert(rest[i] == classes[i + 1]);
            }
        }
        if 0 < at < classes.len() && opt_text(classes[at].1) == Some("true"@) && (forall|i: int|
            0 <= i < at ==> opt_text((#[trigger] classes[i]).1) != Some("true"@)) {
            assert(rest[at - 1] == classes[at]);
            assert forall|i: int| 0 <= i < at - 1 implies opt_text((#[trigger] rest[i]).1) != Some(
                "true"@,
            ) by {
                assert(rest[i] == classes[i + 1]);
            }
        }
    }
}

/// What is removed, step by step: every pod with a name, in order; the volume that the
/// claim is bound to, where there is one; the claim under its own name; and last the
/// capture, the shared one for a member of a group.
pub proof fn lemma_what_is_removed(
    cr: Seq<char>,
    staged: PersistentVolumeClaim,
    pods: Seq<Option<String>>,
    pod: Option<String>,
    pin: GroupPin,
)
    ensures
        claim_steps(cr, None, pods).len() == 0,
        claim_steps(cr, Some(staged), pods).last() == CleanupStepView::DeleteClaim(
            child_name(cr, "src"@),
        ),
        claim_steps(cr, Some(staged), pods).take(pod_steps(pods).len() as int) == pod_steps(pods),
        bound_volume(staged.spec) matches Some(v) ==> claim_steps(cr, Some(staged), pods).len()
            == pod_steps(pods).len() + 2 && claim_steps(cr, Some(staged), pods)[pod_steps(
            pods,
        ).len() as int] == CleanupStepView::ReclaimVolume(v),
        bound_volume(staged.spec) is None ==> claim_steps(cr, Some(staged), pods).len() == pod_steps(
            pods,
        ).len() + 1,
        pod_steps(Seq::empty()).len() == 0,
        pod is None ==> pod_steps(pods.push(pod)) == pod_steps(pods),
        pod matches Some(n) ==> pod_steps(pods.push(pod)) == pod_steps(pods).push(
            CleanupStepView::DeletePod(n@),
        ),
        capture_step(cr, None) == CleanupStepView::DeleteSnapshot(child_name(cr, "snap"@)),
        capture_step(cr, Some(pin)) == CleanupStepView::ReapGroup(pin.namespace@, pin.name@),
{
    assert(pods.push(pod).drop_last() =~= pods);
    assert(claim_steps(cr, Some(staged), pods).take(pod_steps(pods).len() as int) =~= pod_steps(pods));
}

/// What a step of removing says is what it names.
pub proof fn lemma_steps_say(v: Seq<CleanupStep>, i: int)
    ensures
        step_views(v).len() == v.len(),
        0 <= i < v.len() ==> (v[i] matches CleanupStep::DeletePod { name } ==> step_views(v)[i]
            == CleanupStepView::DeletePod(name@)),
        0 <= i < v.len() ==> (v[i] matches CleanupStep::ReclaimVolume { name } ==> step_views(v)[i]
            == CleanupStepView::ReclaimVolume(name@)),
        0 <= i < v.len() ==> (v[i] matches CleanupStep::DeleteClaim { name } ==> step_views(v)[i]
            == CleanupStepView::DeleteClaim(name@)),
        0 <= i < v.len() ==> (v[i] matches CleanupStep::DeleteSnapshot { name } ==> step_views(v)[i]
            == CleanupStepView::DeleteSnapshot(name@)),
{
}

/// What each state waits for.
pub proof fn lemma_what_each_state_awaits(plan: StagingPlan, state: StagingState, event: StagingEvent)
    ensures
        state is Source ==> (plan.awaited(state, event) <==> event is Source),
        state is Driver || state is Override ==> (plan.awaited(state, event) <==> event is Driver),
        state is Classes || state is GroupClasses ==> (plan.awaited(state, event)
            <==> event is Classes),
        state is SnapshotMade || state is GroupMade || state is StagedMade ==> (plan.awaited(
            state,
            event,
        ) <==> event is Made),
        state is Snapshot ==> (plan.awaited(state, event) <==> event is Snapshot),
        state is Group ==> (plan.awaited(state, event) <==> event is Group),
        state is Members ==> (plan.awaited(state, event) <==> event is Members),
        state is DefaultClass ==> (plan.awaited(state, event) <==> event is StorageClasses),
        state is Binding ==> (plan.awaited(state, event) <==> event is Binding),
        state is Staged ==> (plan.awaited(state, event) <==> event is Staged),
{
}

/// Which states a plan can be in: those of a capture alone only where the source is
/// captured alone, those of a group only where it is captured with its group, and a clone
/// in neither.
pub proof fn lemma_which_states_can_be(plan: StagingPlan, state: StagingState)
    requires
        plan.reachable(state),
    ensures
        plan.source_pvc is Some,
        plan.copy_method != CopyMethod::Direct,
        state is Classes || state is SnapshotMade || state is Snapshot ==> plan.group is None
            && plan.copy_method == CopyMethod::Snapshot,
        state is GroupClasses || state is GroupMade || state is Group || state is Members
            ==> plan.group is Some && plan.selector is Some && plan.copy_method
            == CopyMethod::Snapshot,
        state is Override ==> (plan.staging matches Some(s) && s.storage_class_name is Some),
        state matches StagingState::StagedMade { snapshot, .. } ==> plan.fills(opt_text(snapshot)),
        state matches StagingState::Binding { snapshot, .. } ==> plan.fills(opt_text(snapshot)),
        state matches StagingState::Staged { snapshot, .. } ==> plan.fills(opt_text(snapshot)),
        state matches StagingState::DefaultClass { snapshot } ==> plan.fills(opt_text(snapshot)),
{
}

/// What a staged claim can be filled from.
pub proof fn lemma_what_can_fill(plan: StagingPlan, name: Seq<char>)
    ensures
        plan.fills(None) <==> plan.copy_method == CopyMethod::Clone,
        plan.copy_method == CopyMethod::Clone ==> !plan.fills(Some(name)),
        plan.copy_method != CopyMethod::Clone && plan.group is Some ==> plan.fills(Some(name)),
        plan.copy_method != CopyMethod::Clone && plan.group is None ==> (plan.fills(Some(name))
            <==> name == child_name(plan.snapshot_cr@, "snap"@)),
        plan.valid() <==> can_name(plan.snapshot_cr@, "src"@) && can_name(plan.snapshot_cr@, "snap"@),
        plan.source_pvc matches Some(s) ==> plan.source_name() == s@,
{
}

/// A failure and a wait are told with their reason and their message.
pub proof fn lemma_how_an_end_is_told(r: StagingStep, reason: Seq<char>, message: Seq<char>)
    ensures
        fails(r, reason, message) <==> (r matches StagingStep::Done(
            StagingOutcome::Failed { reason: a, message: b },
        ) && a@ == reason && b@ == message),
        waits(r, reason, message) <==> (r matches StagingStep::Done(
            StagingOutcome::Waiting { reason: a, message: b },
        ) && a@ == reason && b@ == message),
{
}

/// What an event has to bring so that it can be worked on: sizes that can be counted only
/// where a claim is made from them, and a deadline with a date only where it decides.
pub proof fn lemma_what_can_be_worked_on(
    plan: StagingPlan,
    source: PersistentVolumeClaim,
    class: String,
    vs: VsObservation,
    vgs: VgsObservation,
    pvc: StagedPvcObservation,
    members: GroupMembers,
)
    ensures
        plan.copy_method != CopyMethod::Clone ==> plan.workable(
            StagingState::Source,
            StagingEvent::Source(Some(source)),
        ),
        plan.workable(StagingState::Source, StagingEvent::Source(None)),
        vs.ready ==> (plan.workable(
            StagingState::Snapshot { source, class },
            StagingEvent::Snapshot(Some(vs)),
        ) <==> sized(source) && quantity_fits(opt_text(vs.restore_size))),
        !vs.ready ==> (plan.workable(
            StagingState::Snapshot { source, class },
            StagingEvent::Snapshot(Some(vs)),
        ) <==> deadline_dated(plan.timeout, vs.created_at)),
        plan.workable(StagingState::Group { source, class }, StagingEvent::Group(Some(vgs)))
            <==> vgs.ready || deadline_dated(plan.timeout, vgs.created_at),
        plan.workable(
            StagingState::Staged { class: None, effective: class, snapshot: None },
            StagingEvent::Staged(Some(pvc)),
        ) <==> opt_text(pvc.phase) == Some("Bound"@) || opt_text(pvc.phase) == Some("Lost"@)
            || deadline_dated(plan.timeout, pvc.created_at),
        !members@.dom().contains((plan.source_namespace@, plan.source_name())) ==> plan.workable(
            StagingState::Members { source },
            StagingEvent::Members(members),
        ),
        members@.dom().contains((plan.source_namespace@, plan.source_name())) ==> (plan.workable(
            StagingState::Members { source },
            StagingEvent::Members(members),
        ) <==> sized(source) && quantity_fits(
            members@[(plan.source_namespace@, plan.source_name())].1,
        )),
{
}

/// A class that does not exist binds at once, and one that exists as it says.
pub proof fn lemma_how_a_class_binds(mode: Option<String>)
    ensures
        binding_of_class(None) == BindingMode::Immediate,
        binding_of_class(Some(None)) == BindingMode::Immediate,
        binding_of_class(Some(mode)) == BindingMode::WaitForFirstConsumer <==> opt_text(mode) == Some(
            "WaitForFirstConsumer"@,
        ),
        timeout_seconds(None) == 0,
        forall|t: Span| t.secs <= 0x7fff_ffff_ffff_ffff ==> #[trigger] timeout_seconds(Some(t)) == t.secs,
{
}

/// What was made is looked at next, with what it was made from.
pub proof fn lemma_what_is_made_is_looked_at(
    plan: StagingPlan,
    source: PersistentVolumeClaim,
    class: String,
    now: Moment,
    r: StagingStep,
    q: StagingStep,
)
    requires
        plan.follows(StagingState::SnapshotMade { source, class }, StagingEvent::Made, now, r),
        plan.follows(StagingState::GroupMade { source, class }, StagingEvent::Made, now, q),
    ensures
        r matches StagingStep::Ask {
            state: StagingState::Snapshot { source: s, class: c },
            action: StagingAction::ReadSnapshot { name },
        } && s == source && c == class && name@ == child_name(plan.snapshot_cr@, "snap"@),
        q matches StagingStep::Ask {
            state: StagingState::Group { source: s, class: c },
            action: StagingAction::ReadGroup,
        } && s == source && c == class,
{
}

/// Without a class of its own the staged claim binds as the cluster's default class does;
/// where there is none, nothing is waited for.
pub proof fn lemma_after_the_default_class(
    plan: StagingPlan,
    snapshot: Option<String>,
    classes: Vec<(Option<String>, Option<String>)>,
    now: Moment,
    r: StagingStep,
)
    requires
        plan.follows(
            StagingState::DefaultClass { snapshot },
            StagingEvent::StorageClasses(classes),
            now,
            r,
        ),
    ensures
        default_class(classes@) is None ==> plan.is_ready(None, opt_text(snapshot), r),
        default_class(classes@) matches Some(c) ==> (r matches StagingStep::Ask {
            state: StagingState::Binding { class: None, effective, snapshot: s },
            action: StagingAction::ReadBinding { class: b },
        } && effective@ == c && b@ == c && opt_text(s) == opt_text(snapshot)),
{
}

/// What a clone needs of its source: a size that can be counted, once nothing else has to
/// be looked up first.
pub proof fn lemma_what_a_clone_needs(
    plan: StagingPlan,
    source: PersistentVolumeClaim,
    driver: Option<String>,
    found: Option<String>,
)
    requires
        plan.copy_method == CopyMethod::Clone,
    ensures
        class_of(source) is Some ==> plan.workable(
            StagingState::Source,
            StagingEvent::Source(Some(source)),
        ),
        class_of(source) is None && !plan.overrides() ==> (plan.workable(
            StagingState::Source,
            StagingEvent::Source(Some(source)),
        ) <==> sized(source)),
        !plan.overrides() ==> (plan.workable(
            StagingState::Driver { source },
            StagingEvent::Driver(found),
        ) <==> sized(source)),
        plan.overrides() ==> plan.workable(
            StagingState::Driver { source },
            StagingEvent::Driver(found),
        ),
        plan.overrides() <==> (plan.staging matches Some(s) && s.storage_class_name is Some),
        plan.overrides() ==> Some(plan.override_class()) == opt_text(
            plan.staging->0.storage_class_name,
        ),
        plan.workable(StagingState::Override { source, driver }, StagingEvent::Driver(found)) <==> (
        preflight_fault(plan.override_class(), opt_text(found), opt_text(driver)) is None ==> sized(
            source,
        )),
{
}

/// What the messages of staging tell: which source it is, by which driver and class.
pub proof fn lemma_what_staging_messages_tell(
    plan: StagingPlan,
    source: PersistentVolumeClaim,
    class: String,
    now: Moment,
    missing: StagingStep,
    no_driver: StagingStep,
    unseen: StagingStep,
)
    requires
        plan.follows(StagingState::Source, StagingEvent::Source(None), now, missing),
        plan.copy_method == CopyMethod::Snapshot,
        plan.group is None,
        plan.captures(source, None, no_driver),
        plan.follows(
            StagingState::Snapshot { source, class },
            StagingEvent::Snapshot(None),
            now,
            unseen,
        ),
    ensures
        missing matches StagingStep::Done(StagingOutcome::Failed { message, .. }) && holds_text(
            message@,
            "source PVC `"@ + plan.ns@ + "/"@ + plan.source_name() + "` was not found; copyMethod "@
                + "Snapshot"@,
        ),
        no_driver matches StagingStep::Done(StagingOutcome::Failed { message, .. }) && holds_text(
            message@,
            "source PVC `"@ + plan.ns@ + "/"@ + plan.source_name(),
        ),
        unseen matches StagingStep::Done(StagingOutcome::Waiting { reason, message }) && reason@
            == STAGING_WAITING_REASON@ && message@ == "waiting for VolumeSnapshot `"@ + plan.ns@
            + "/"@ + child_name(plan.snapshot_cr@, "snap"@) + "` to become readyToUse"@,
{
    broadcast use lemma_holds_end, lemma_holds_on, lemma_holds_itself;

}

/// What the failures to choose a class tell: the name that was asked for, the driver, and
/// the classes to choose from.
pub proof fn lemma_what_class_failures_tell(
    plan: StagingPlan,
    source: PersistentVolumeClaim,
    driver: String,
    classes: Vec<ClassInfo>,
    now: Moment,
    r: StagingStep,
)
    requires
        plan.follows(
            StagingState::Classes { source, driver },
            StagingEvent::Classes(Some(classes)),
            now,
            r,
        ),
    ensures
        ({
            let chosen = chosen_class(classes@, driver@, opt_text(plan.explicit_class));
            &&& chosen matches ClassDecisionView::ExplicitNotFound(name) ==> (r matches
                StagingStep::Done(StagingOutcome::Failed { message, .. }) && holds_text(
                message@,
                "volumeSnapshotClassName `"@ + name,
            ) && holds_text(message@, driver@))
            &&& chosen matches ClassDecisionView::NoneForDriver(d) ==> (r matches
                StagingStep::Done(StagingOutcome::Failed { message, .. }) && holds_text(
                message@,
                "no VolumeSnapshotClass has driver `"@ + d,
            ))
            &&& chosen matches ClassDecisionView::Ambiguous(d, names) ==> (r matches
                StagingStep::Done(StagingOutcome::Failed { message, .. }) && holds_text(
                message@,
                "multiple VolumeSnapshotClasses match driver `"@ + d,
            ) && holds_text(message@, joined(names, ", "@)))
        }),
{
    broadcast use lemma_holds_end, lemma_holds_on, lemma_holds_itself;

}

} // verus!
