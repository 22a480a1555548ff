//! Staging from one snapshot that a group of volumes shares.
//!
//! Every member of the group stages its own claim, from the one snapshot of the
//! shared capture that is its own. The capture belongs to no single member: each
//! makes it anew over the same name, and the last one that is done with it removes it.
use vstd::prelude::*;
use vstd::string::*;

use crate::clock::{Moment, Span, later};
use crate::consts::{
    COMPONENT_LABEL, GROUP_LABEL, GROUP_STAGING_WAITING_REASON, REASON_GROUP_MEMBER_MISSING,
    REASON_GROUP_STAGING_TIMEOUT, REASON_NO_GROUP_CLASS, REASON_VGS_FAILED,
};
use crate::io::apply::{
    Json, Tree, child, child_of, entries, entry, get, get_text, get_true, is_true, member,
    members, opt_tree, text_of, tree,
};
use crate::io::staging::{
    ClassDecision, ClassDecisionView, ClassInfo, DynamicObject, WaitView, can_name, child_labels,
    child_name, chosen_class, deadline, deadline_clause, deadline_dated, deadline_for,
    deadline_note, decide_class, error_clause, error_note, expired, has_expired, made_labels,
    staged_child_name, volume_snapshot_name, waited, waited_text,
};
use crate::io::meta::ApiResource;
use crate::text::{
    decimal, decimal_text, holds_text, join, joined, lemma_holds_end, lemma_holds_itself,
    lemma_holds_on, opt_str, opt_text, same, same_opt,
};

verus! {

/// The API group of snapshots of groups.
pub const GROUP_SNAPSHOT_GROUP: &'static str = "groupsnapshot.storage.k8s.io";

/// The version that is used of it.
pub const GROUP_SNAPSHOT_VERSION: &'static str = "v1beta1";

/// Component of a shared snapshot.
pub const GROUP_COMPONENT: &'static str = "staged-source-group";

/// The annotation of a driver's default class of group snapshots. Its domain is
/// not that of the API group.
pub const DEFAULT_GROUP_CLASS_ANNOTATION: &'static str = "groupsnapshot.storage.kubernetes.io/is-default-class";

/// A look at a shared snapshot.
#[derive(Debug, Clone, PartialEq, Eq)]
pub struct VgsObservation {
    /// Whether it is usable.
    pub ready: bool,
    /// What went wrong last.
    pub error: Option<String>,
    /// When it was made, in seconds since the Unix epoch.
    pub created_at: Option<i64>,
}

/// Whether a shared snapshot is worth waiting for.
#[derive(Debug, Clone, PartialEq, Eq)]
pub enum VgsWait {
    /// It is usable.
    Ready,
    /// Not yet.
    Waiting(String),
    /// The deadline has passed.
    Failed {
        /// Why, in one word.
        reason: &'static str,
        /// Why, and how to mend it.
        message: String,
    },
}

/// A snapshot that may belong to a group.
#[derive(Debug, Clone, PartialEq, Eq)]
pub struct MemberVs {
    /// Its name.
    pub name: String,
    /// The shared snapshot that it belongs to.
    pub group: Option<String>,
    /// Its content.
    pub content: Option<String>,
    /// The size that it is restored to.
    pub restore_size: Option<String>,
}

/// The content of a snapshot.
#[derive(Debug, Clone, PartialEq, Eq)]
pub struct ContentInfo {
    /// Its name.
    pub name: String,
    /// The volume that it was taken of.
    pub volume_handle: Option<String>,
}

/// A volume and the claim that it is bound to.
#[derive(Debug, Clone, PartialEq, Eq)]
pub struct PvInfo {
    /// The volume.
    pub volume_handle: String,
    /// The claim's namespace.
    pub claim_namespace: String,
    /// The claim's name.
    pub claim_name: String,
}

/// The snapshot of one member of a group.
#[derive(Debug, Clone, PartialEq, Eq)]
pub struct GroupMember {
    /// Its name.
    pub volume_snapshot_name: String,
    /// The size that it is restored to.
    pub restore_size: Option<String>,
}

/// The members of a group by the namespace and name of their claims. Where a
/// claim is entered twice, the later entry counts.
#[derive(Debug, Clone, PartialEq, Eq)]
pub struct GroupMembers {
    /// The entries, in the order in which they were made.
    pub entries: Vec<(String, String, GroupMember)>,
}

/// How far a member of a group is.
#[derive(Debug, Clone, Copy, PartialEq, Eq, Structural)]
pub struct SiblingState {
    /// Whether its phase is final.
    pub terminal: bool,
    /// Whether its staged claim still exists.
    pub staged_pvc_present: bool,
}

/// The phase of a `Snapshot`.
#[derive(Debug, Clone, Copy, PartialEq, Eq, Structural)]
pub enum SnapshotPhase {
    /// Not started.
    Pending,
    /// Running.
    Running,
    /// Done.
    Succeeded,
    /// Failed.
    Failed,
    /// Nothing to back up.
    Unchanged,
    /// Found in the repository.
    Discovered,
    /// Going away.
    Deleting,
}

/// What came of the shared snapshot for one member.
#[derive(Debug, Clone, PartialEq, Eq)]
pub enum GroupStage {
    /// The member's own snapshot is usable.
    Ready {
        /// The snapshot.
        member: GroupMember,
    },
    /// Not yet.
    Waiting {
        /// What for, in one word.
        reason: &'static str,
        /// What for.
        message: String,
    },
    /// It cannot be used. This is final for the member.
    Failed {
        /// Why, in one word.
        reason: &'static str,
        /// Why, and how to mend it.
        message: String,
    },
}

impl View for VgsWait {
    type V = WaitView;

    open spec fn view(&self) -> WaitView {
        match self {
            VgsWait::Ready => WaitView::Ready(None),
            VgsWait::Waiting(m) => WaitView::Waiting(m@),
            VgsWait::Failed { reason, message } => WaitView::Failed(reason@, message@),
        }
    }
}

/// What a member's snapshot says.
pub open spec fn member_view(m: GroupMember) -> (Seq<char>, Option<Seq<char>>) {
    (m.volume_snapshot_name@, opt_text(m.restore_size))
}

/// The members that a list of entries makes, later ones over earlier ones.
pub open spec fn members_map(entries: Seq<(String, String, GroupMember)>) -> Map<
    (Seq<char>, Seq<char>),
    (Seq<char>, Option<Seq<char>>),
>
    decreases entries.len(),
{
    if entries.len() == 0 {
        Map::empty()
    } else {
        members_map(entries.drop_last()).insert(
            (entries.last().0@, entries.last().1@),
            member_view(entries.last().2),
        )
    }
}

impl View for GroupMembers {
    type V = Map<(Seq<char>, Seq<char>), (Seq<char>, Option<Seq<char>>)>;

    open spec fn view(&self) -> Map<(Seq<char>, Seq<char>), (Seq<char>, Option<Seq<char>>)> {
        members_map(self.entries@)
    }
}

/// What a stage says.
pub enum GroupStageView {
    /// The member's own snapshot is usable.
    Ready(Seq<char>, Option<Seq<char>>),
    /// Not yet.
    Waiting(Seq<char>, Seq<char>),
    /// It cannot be used.
    Failed(Seq<char>, Seq<char>),
}

impl View for GroupStage {
    type V = GroupStageView;

    open spec fn view(&self) -> GroupStageView {
        match self {
            GroupStage::Ready { member } => GroupStageView::Ready(
                member.volume_snapshot_name@,
                opt_text(member.restore_size),
            ),
            GroupStage::Waiting { reason, message } => GroupStageView::Waiting(reason@, message@),
            GroupStage::Failed { reason, message } => GroupStageView::Failed(reason@, message@),
        }
    }
}

/// The front of the message while a shared snapshot is not usable.
pub open spec fn group_waiting(ns: Seq<char>, name: Seq<char>) -> Seq<char> {
    "waiting for VolumeGroupSnapshot `"@ + ns + "/"@ + name + "` to become readyToUse"@
}

/// Whether a shared snapshot is worth waiting for.
pub open spec fn vgs_wait(
    ready: bool,
    error: Option<Seq<char>>,
    created: Option<i64>,
    ns: Seq<char>,
    name: Seq<char>,
    class: Seq<char>,
    timeout: Option<Span>,
    now: Moment,
) -> WaitView {
    if ready {
        WaitView::Ready(None)
    } else if !expired(timeout, created, now) {
        WaitView::Waiting(
            group_waiting(ns, name) + error_clause(error) + deadline_clause(
                deadline(timeout, created),
                "not ready"@,
            ),
        )
    } else {
        match error {
            Some(e) => WaitView::Failed(
                REASON_VGS_FAILED@,
                "VolumeGroupSnapshot `"@ + ns + "/"@ + name
                    + "` did not become readyToUse within "@ + waited(timeout)
                    + " (spec.staging.timeout; default 10m) and last reported: "@ + e
                    + "; check the VolumeGroupSnapshotClass `"@ + class
                    + "` / CSI driver, or set `groupBy: None` to capture each PVC independently. Every member Snapshot of this group is terminal — the next scheduled run retries"@,
            ),
            None => WaitView::Failed(
                REASON_GROUP_STAGING_TIMEOUT@,
                "VolumeGroupSnapshot `"@ + ns + "/"@ + name
                    + "` did not become readyToUse within "@ + waited(timeout)
                    + " (spec.staging.timeout; default 10m) and reported no error — the CSI driver or snapshot-controller is stuck or very slow. Check both, raise spec.staging.timeout, or set `groupBy: None` to capture each PVC independently. Every member Snapshot of this group is terminal — the next scheduled run retries"@,
            ),
        }
    }
}

/// The volume that a content was taken of; of several contents of that name
/// with a volume the last.
pub open spec fn handle_of(contents: Seq<ContentInfo>, name: Seq<char>) -> Option<Seq<char>>
    decreases contents.len(),
{
    if contents.len() == 0 {
        None
    } else if contents.last().name@ == name && contents.last().volume_handle is Some {
        opt_text(contents.last().volume_handle)
    } else {
        handle_of(contents.drop_last(), name)
    }
}

/// The claim that a volume is bound to; of several entries the last.
pub open spec fn claim_of(pvs: Seq<PvInfo>, handle: Seq<char>) -> Option<(Seq<char>, Seq<char>)>
    decreases pvs.len(),
{
    if pvs.len() == 0 {
        None
    } else if pvs.last().volume_handle@ == handle {
        Some((pvs.last().claim_namespace@, pvs.last().claim_name@))
    } else {
        claim_of(pvs.drop_last(), handle)
    }
}

/// The claim that a snapshot of the group was taken of: by its content and the
/// volume of that. Nothing where one of these is not known.
pub open spec fn captured_claim(
    m: MemberVs,
    contents: Seq<ContentInfo>,
    pvs: Seq<PvInfo>,
    group: Seq<char>,
) -> Option<(Seq<char>, Seq<char>)> {
    if opt_text(m.group) != Some(group) {
        None
    } else {
        match opt_text(m.content) {
            Some(c) => match handle_of(contents, c) {
                Some(h) => claim_of(pvs, h),
                None => None,
            },
            None => None,
        }
    }
}

/// The members of a group by their claims, later snapshots over earlier ones.
pub open spec fn captured(
    members: Seq<MemberVs>,
    contents: Seq<ContentInfo>,
    pvs: Seq<PvInfo>,
    group: Seq<char>,
) -> Map<(Seq<char>, Seq<char>), (Seq<char>, Option<Seq<char>>)>
    decreases members.len(),
{
    if members.len() == 0 {
        Map::empty()
    } else {
        let before = captured(members.drop_last(), contents, pvs, group);
        let m = members.last();
        match captured_claim(m, contents, pvs, group) {
            Some(claim) => before.insert(claim, (m.name@, opt_text(m.restore_size))),
            None => before,
        }
    }
}

/// Whether a phase is final.
pub open spec fn phase_is_final(phase: Option<SnapshotPhase>) -> bool {
    ||| phase == Some(SnapshotPhase::Succeeded)
    ||| phase == Some(SnapshotPhase::Failed)
    ||| phase == Some(SnapshotPhase::Unchanged)
}

/// What a shared snapshot is asked for.
pub open spec fn group_data(class: Seq<char>, selector: Tree) -> Tree {
    let none = Map::<Seq<char>, Tree>::empty();
    Tree::Object(
        none.insert(
            "spec"@,
            Tree::Object(
                none.insert("volumeGroupSnapshotClassName"@, Tree::Text(class)).insert(
                    "source"@,
                    Tree::Object(none.insert("selector"@, selector)),
                ),
            ),
        ),
    )
}

fn copy_opt(o: &Option<String>) -> (r: Option<String>)
    ensures
        opt_text(r) == opt_text(*o),
{
    match o {
        Some(s) => Some(s.clone()),
        None => None,
    }
}

fn borrow_opt(o: &Option<String>) -> (r: Option<&str>)
    ensures
        opt_str(r) == opt_text(*o),
{
    match o {
        Some(s) => Some(s.as_str()),
        None => None,
    }
}

/// The name of the shared snapshot. It is made from what the members have in
/// common, so that each finds the same name on its own.
pub fn group_name(base: &str) -> (r: String)
    requires
        can_name(base@, "grp"@),
    ensures
        r@ == child_name(base@, "grp"@),
{
    staged_child_name(base, "grp")
}

/// The shared snapshot. It has no owner, since no member's end is its own; it
/// carries the label that joins its members to it.
pub fn build_volume_group_snapshot(name: &str, ns: &str, selector: &Json, class: &str, group: &str) -> (r:
    DynamicObject)
    ensures
        r.api_version@ == GROUP_SNAPSHOT_GROUP@ + "/"@ + GROUP_SNAPSHOT_VERSION@,
        r.kind@ == "VolumeGroupSnapshot"@,
        r.name@ == name@,
        r.namespace@ == ns@,
        r.labels@ == made_labels(COMPONENT_LABEL@, GROUP_COMPONENT@).insert(GROUP_LABEL@, group@),
        r.owner_references@.len() == 0,
        tree(r.data) == group_data(class@, tree(*selector)),
{
    let mut api_version = GROUP_SNAPSHOT_GROUP.to_owned();
    api_version.append("/");
    api_version.append(GROUP_SNAPSHOT_VERSION);
    let mut labels = child_labels(COMPONENT_LABEL, GROUP_COMPONENT);
    labels.insert(GROUP_LABEL, group);
    let spec = entries(
        "volumeGroupSnapshotClassName",
        Json::Text(class.to_owned()),
        "source",
        entry("selector", selector.copy()),
    );
    DynamicObject {
        api_version,
        kind: "VolumeGroupSnapshot".to_owned(),
        name: name.to_owned(),
        namespace: ns.to_owned(),
        labels,
        owner_references: Vec::new(),
        data: entry("spec", spec),
    }
}

/// The front of the message while a shared snapshot is not usable.
pub fn group_waiting_message(ns: &str, name: &str) -> (r: String)
    ensures
        r@ == group_waiting(ns@, name@),
{
    let mut m = "waiting for VolumeGroupSnapshot `".to_owned();
    m.append(ns);
    m.append("/");
    m.append(name);
    m.append("` to become readyToUse");
    m
}

/// Whether a shared snapshot is worth waiting for, by the rules for a single
/// snapshot: usable wins, an error is never final, and the deadline counts from
/// when the shared snapshot was made, so that all members come to the same answer.
pub fn vgs_wait_outcome(
    obs: &VgsObservation,
    ns: &str,
    name: &str,
    class: &str,
    timeout: Option<Span>,
    now: Moment,
) -> (r: VgsWait)
    requires
        !obs.ready ==> deadline_dated(timeout, obs.created_at),
    ensures
        r@ == vgs_wait(
            obs.ready,
            opt_text(obs.error),
            obs.created_at,
            ns@,
            name@,
            class@,
            timeout,
            now,
        ),
{
    if obs.ready {
        return VgsWait::Ready;
    }
    let due = deadline_for(timeout, obs.created_at);
    if !has_expired(due, now) {
        let mut m = group_waiting_message(ns, name);
        let note = error_note(borrow_opt(&obs.error));
        m.append(note.as_str());
        let until = deadline_note(due, "not ready");
        m.append(until.as_str());
        return VgsWait::Waiting(m);
    }
    let budget = waited_text(timeout);
    let mut m = "VolumeGroupSnapshot `".to_owned();
    m.append(ns);
    m.append("/");
    m.append(name);
    m.append("` did not become readyToUse within ");
    m.append(budget.as_str());
    match &obs.error {
        Some(err) => {
            m.append(" (spec.staging.timeout; default 10m) and last reported: ");
            m.append(err.as_str());
            m.append("; check the VolumeGroupSnapshotClass `");
            m.append(class);
            m.append(
                "` / CSI driver, or set `groupBy: None` to capture each PVC independently. Every member Snapshot of this group is terminal — the next scheduled run retries",
            );
            VgsWait::Failed { reason: REASON_VGS_FAILED, message: m }
        },
        None => {
            m.append(
                " (spec.staging.timeout; default 10m) and reported no error — the CSI driver or snapshot-controller is stuck or very slow. Check both, raise spec.staging.timeout, or set `groupBy: None` to capture each PVC independently. Every member Snapshot of this group is terminal — the next scheduled run retries",
            );
            VgsWait::Failed { reason: REASON_GROUP_STAGING_TIMEOUT, message: m }
        },
    }
}

/// A look at a shared snapshot, from what the cluster holds of it.
pub fn vgs_observation(data: &Json, created_at: Option<i64>) -> (r: VgsObservation)
    ensures
        ({
            let status = child(tree(*data), "status"@);
            &&& r.ready == is_true(child_of(status, "readyToUse"@))
            &&& opt_text(r.error) == text_of(child_of(child_of(status, "error"@), "message"@))
            &&& r.created_at == created_at
        }),
{
    let status = get(Some(data), "status");
    let error: Option<String> = match get_text(get(get(status, "error"), "message")) {
        Some(s) => Some(s.clone()),
        None => None,
    };
    VgsObservation { ready: get_true(get(status, "readyToUse")), error, created_at }
}

fn text_opt(v: Option<&Json>) -> (r: Option<String>)
    ensures
        opt_text(r) == text_of(opt_tree(v)),
{
    match get_text(v) {
        Some(s) => Some(s.clone()),
        None => None,
    }
}

/// A snapshot that may belong to a group, from what the cluster holds of it.
pub fn member_vs(name: &str, data: &Json) -> (r: MemberVs)
    ensures
        ({
            let status = child(tree(*data), "status"@);
            &&& r.name@ == name@
            &&& opt_text(r.group) == text_of(child_of(status, "volumeGroupSnapshotName"@))
            &&& opt_text(r.content) == text_of(
                child_of(status, "boundVolumeSnapshotContentName"@),
            )
            &&& opt_text(r.restore_size) == text_of(child_of(status, "restoreSize"@))
        }),
{
    let status = get(Some(data), "status");
    MemberVs {
        name: name.to_owned(),
        group: text_opt(get(status, "volumeGroupSnapshotName")),
        content: text_opt(get(status, "boundVolumeSnapshotContentName")),
        restore_size: text_opt(get(status, "restoreSize")),
    }
}

/// The content of a snapshot, from what the cluster holds of it.
pub fn content_info(name: &str, data: &Json) -> (r: ContentInfo)
    ensures
        r.name@ == name@,
        opt_text(r.volume_handle) == text_of(
            child_of(
                child_of(child(tree(*data), "spec"@), "source"@),
                "volumeHandle"@,
            ),
        ),
{
    ContentInfo {
        name: name.to_owned(),
        volume_handle: text_opt(get(get(get(Some(data), "spec"), "source"), "volumeHandle")),
    }
}

/// A volume and its claim, where it has both a handle and a claim.
pub fn pv_info(handle: Option<&str>, claim_namespace: Option<&str>, claim_name: Option<&str>) -> (r:
    Option<PvInfo>)
    ensures
        match (handle, claim_namespace, claim_name) {
            (Some(h), Some(ns), Some(n)) => r matches Some(p) && p.volume_handle@ == h@
                && p.claim_namespace@ == ns@ && p.claim_name@ == n@,
            _ => r is None,
        },
{
    match (handle, claim_namespace, claim_name) {
        (Some(h), Some(ns), Some(n)) => Some(
            PvInfo {
                volume_handle: h.to_owned(),
                claim_namespace: ns.to_owned(),
                claim_name: n.to_owned(),
            },
        ),
        _ => None,
    }
}

/// The volume that a content was taken of.
fn find_handle<'a>(contents: &'a [ContentInfo], name: &str) -> (r: Option<&'a String>)
    ensures
        handle_of(contents@, name@) == match r {
            Some(h) => Some(h@),
            None => None,
        },
{
    let mut i: usize = contents.len();
    assert(contents@.take(i as int) =~= contents@);
    while i > 0
        invariant
            i <= contents@.len(),
            handle_of(contents@, name@) == handle_of(contents@.take(i as int), name@),
        decreases i,
    {
        assert(contents@.take(i as int).drop_last() =~= contents@.take(i - 1));
        i -= 1;
        if same(contents[i].name.as_str(), name) {
            if let Some(h) = &contents[i].volume_handle {
                return Some(h);
            }
        }
    }
    None
}

/// The entry of the volume that is bound to a claim.
fn find_claim<'a>(pvs: &'a [PvInfo], handle: &str) -> (r: Option<&'a PvInfo>)
    ensures
        claim_of(pvs@, handle@) == match r {
            Some(p) => Some((p.claim_namespace@, p.claim_name@)),
            None => None,
        },
{
    let mut i: usize = pvs.len();
    assert(pvs@.take(i as int) =~= pvs@);
    while i > 0
        invariant
            i <= pvs@.len(),
            claim_of(pvs@, handle@) == claim_of(pvs@.take(i as int), handle@),
        decreases i,
    {
        assert(pvs@.take(i as int).drop_last() =~= pvs@.take(i - 1));
        i -= 1;
        if same(pvs[i].volume_handle.as_str(), handle) {
            return Some(&pvs[i]);
        }
    }
    None
}

/// The entry of the claim that a snapshot of the group was taken of.
fn find_captured<'a>(
    m: &MemberVs,
    contents: &[ContentInfo],
    pvs: &'a [PvInfo],
    group: &str,
) -> (r: Option<&'a PvInfo>)
    ensures
        captured_claim(*m, contents@, pvs@, group@) == match r {
            Some(p) => Some((p.claim_namespace@, p.claim_name@)),
            None => None,
        },
{
    if !same_opt(borrow_opt(&m.group), Some(group)) {
        return None;
    }
    match &m.content {
        Some(c) => match find_handle(contents, c.as_str()) {
            Some(h) => find_claim(pvs, h.as_str()),
            None => None,
        },
        None => None,
    }
}

/// The members of a group by their claims. A snapshot does not say which claim
/// it was taken of: its content names a volume, and the volume a claim. One for which
/// a step is missing is left out, and never guessed at.
pub fn map_group_members(
    members: &[MemberVs],
    contents: &[ContentInfo],
    pvs: &[PvInfo],
    group: &str,
) -> (r: GroupMembers)
    ensures
        r@ == captured(members@, contents@, pvs@, group@),
{
    let mut out: Vec<(String, String, GroupMember)> = Vec::new();
    let mut i: usize = 0;
    assert(members@.take(0) =~= Seq::empty());
    while i < members.len()
        invariant
            i <= members@.len(),
            members_map(out@) == captured(members@.take(i as int), contents@, pvs@, group@),
        decreases members@.len() - i,
    {
        let m = &members[i];
        assert(members@.take(i + 1).drop_last() =~= members@.take(i as int));
        assert(members@.take(i + 1).last() == *m);
        if let Some(p) = find_captured(m, contents, pvs, group) {
            let ghost was = out@;
            out.push(
                (
                    p.claim_namespace.clone(),
                    p.claim_name.clone(),
                    GroupMember {
                        volume_snapshot_name: m.name.clone(),
                        restore_size: copy_opt(&m.restore_size),
                    },
                ),
            );
            assert(out@.drop_last() =~= was);
        }
        i += 1;
    }
    assert(members@.take(i as int) =~= members@);
    GroupMembers { entries: out }
}

impl GroupMembers {
    /// The snapshot of a claim.
    pub fn get(&self, namespace: &str, name: &str) -> (r: Option<&GroupMember>)
        ensures
            match r {
                Some(m) => self@.dom().contains((namespace@, name@)) && self@[(namespace@, name@)]
                    == member_view(*m),
                None => !self@.dom().contains((namespace@, name@)),
            },
    {
        let mut i: usize = self.entries.len();
        let ghost key = (namespace@, name@);
        assert(self.entries@.take(i as int) =~= self.entries@);
        while i > 0
            invariant
                i <= self.entries@.len(),
                key == (namespace@, name@),
                self@.dom().contains(key) == members_map(
                    self.entries@.take(i as int),
                ).dom().contains(key),
                self@.dom().contains(key) ==> self@[key] == members_map(
                    self.entries@.take(i as int),
                )[key],
            decreases i,
        {
            assert(self.entries@.take(i as int).drop_last() =~= self.entries@.take(i - 1));
            i -= 1;
            if same(self.entries[i].0.as_str(), namespace) && same(
                self.entries[i].1.as_str(),
                name,
            ) {
                return Some(&self.entries[i].2);
            }
        }
        None
    }

    /// Whether there is no member.
    pub fn is_empty(&self) -> (r: bool)
        ensures
            r == (self@ == Map::<(Seq<char>, Seq<char>), (Seq<char>, Option<Seq<char>>)>::empty()),
    {
        if self.entries.len() == 0 {
            true
        } else {
            assert(self@.dom().contains((self.entries@.last().0@, self.entries@.last().1@)));
            false
        }
    }
}

/// Whether none of the listed snapshots belongs to the group, so that there is
/// nothing to look up for it.
pub fn no_member_listed(members: &[MemberVs], group: &str) -> (r: bool)
    ensures
        r == forall|i: int|
            0 <= i < members@.len() ==> opt_text((#[trigger] members@[i]).group) != Some(group@),
{
    let mut i: usize = 0;
    while i < members.len()
        invariant
            i <= members@.len(),
            forall|j: int|
                0 <= j < i ==> opt_text((#[trigger] members@[j]).group) != Some(group@),
        decreases members@.len() - i,
    {
        if same_opt(borrow_opt(&members[i].group), Some(group)) {
            return false;
        }
        i += 1;
    }
    true
}

/// Whether a phase is final, so that nothing more is started.
pub fn is_final_phase(phase: Option<SnapshotPhase>) -> (r: bool)
    ensures
        r == phase_is_final(phase),
{
    match phase {
        Some(SnapshotPhase::Succeeded) => true,
        Some(SnapshotPhase::Failed) => true,
        Some(SnapshotPhase::Unchanged) => true,
        _ => false,
    }
}

/// Whether a state is that of a member with this phase, whose staged claim was
/// looked for with this result.
pub open spec fn state_fits(member: (Option<SnapshotPhase>, Option<bool>), s: SiblingState) -> bool {
    member.1 == Some(s.staged_pvc_present) && s.terminal == phase_is_final(member.0)
}

/// Whether the states are those of the members, in order.
pub open spec fn states_fit(
    members: Seq<(Option<SnapshotPhase>, Option<bool>)>,
    states: Seq<SiblingState>,
) -> bool {
    states.len() == members.len() && forall|i: int|
        0 <= i < states.len() ==> state_fits(members[i], #[trigger] states[i])
}

/// Whether the staged claim of one of the members could not be looked for.
pub open spec fn unread_among(members: Seq<(Option<SnapshotPhase>, Option<bool>)>) -> bool {
    exists|i: int| 0 <= i < members.len() && (#[trigger] members[i]).1 is None
}

/// How far the members of a group are, from their phases and whether their
/// staged claims were found. Nothing where one of the claims could not be looked for.
pub fn sibling_states(members: &[(Option<SnapshotPhase>, Option<bool>)]) -> (r: Option<
    Vec<SiblingState>,
>)
    ensures
        r is None <==> unread_among(members@),
        r matches Some(v) ==> states_fit(members@, v@),
{
    let mut out: Vec<SiblingState> = Vec::new();
    let mut i: usize = 0;
    while i < members.len()
        invariant
            i <= members@.len(),
            out@.len() == i,
            forall|j: int| 0 <= j < i ==> state_fits(members@[j], #[trigger] out@[j]),
            forall|j: int| 0 <= j < i ==> (#[trigger] members@[j]).1 is Some,
        decreases members@.len() - i,
    {
        let (phase, found) = members[i];
        match found {
            None => {
                assert(members@[i as int].1 is None);
                return None;
            },
            Some(present) => {
                out.push(
                    SiblingState { terminal: is_final_phase(phase), staged_pvc_present: present },
                );
            },
        }
        i += 1;
    }
    Some(out)
}

/// Whether every member is done: its phase is final and its staged claim gone.
pub open spec fn all_done(siblings: Seq<SiblingState>) -> bool {
    forall|i: int|
        0 <= i < siblings.len() ==> (#[trigger] siblings[i]).terminal
            && !siblings[i].staged_pvc_present
}

/// Whether nobody needs the shared snapshot any more. What could not be read
/// counts as needed.
pub open spec fn unused(siblings: Option<Seq<SiblingState>>) -> bool {
    match siblings {
        Some(s) => all_done(s),
        None => false,
    }
}

/// Whether the shared snapshot may be removed.
pub fn group_reapable(siblings: Option<&[SiblingState]>) -> (r: bool)
    ensures
        r == unused(
            match siblings {
                Some(s) => Some(s@),
                None => None,
            },
        ),
{
    match siblings {
        None => false,
        Some(s) => {
            let mut i: usize = 0;
            while i < s.len()
                invariant
                    i <= s@.len(),
                    siblings == Some(s),
                    forall|j: int|
                        0 <= j < i ==> (#[trigger] s@[j]).terminal && !s@[j].staged_pvc_present,
                decreases s@.len() - i,
            {
                if !s[i].terminal || s[i].staged_pvc_present {
                    assert(!all_done(s@)) by {
                        assert(!(s@[i as int].terminal && !s@[i as int].staged_pvc_present));
                    }
                    return false;
                }
                i += 1;
            }
            true
        },
    }
}

/// Whether a `Snapshot` belongs to a group: its own source names the group.
pub fn belongs_to_group(source_group: Option<&str>, group: &str) -> (r: bool)
    ensures
        r == (opt_str(source_group) == Some(group@)),
{
    same_opt(source_group, Some(group))
}

/// The message where a policy no longer selects by label.
pub open spec fn selector_gone(
    ns: Seq<char>,
    name: Seq<char>,
    policy: Seq<char>,
    index: nat,
) -> Seq<char> {
    "this Snapshot pins the VolumeGroupSnapshot `"@ + ns + "/"@ + name + "`, but SnapshotPolicy                  `"@
        + policy + "` source #"@ + decimal(index)
        + " no longer has a pvcSelector with a labelSelector —                  the recipe was edited mid-run. Delete this Snapshot and let the schedule                  re-fire."@
}

/// The message where a claim has no driver.
pub open spec fn driver_unknown(pvc_namespace: Seq<char>, pvc_name: Seq<char>) -> Seq<char> {
    "PersistentVolumeClaim `"@ + pvc_namespace + "/"@ + pvc_name
        + "` has no StorageClass, so its                  CSI driver is unknown and no VolumeGroupSnapshotClass can be matched. Set                  `copyMethod: Direct`, or `groupBy: None`."@
}

/// The message where group snapshots are not installed.
pub open spec fn group_stack_missing() -> Seq<char> {
    "`groupBy: VolumeGroupSnapshot` needs the "@ + GROUP_SNAPSHOT_GROUP@
        + " API group, which                  this cluster does not serve. Install external-snapshotter 8.2+ (group snapshots                  are Beta from Kubernetes 1.32), or set `groupBy: None` to capture each PVC                  independently."@
}

/// The message where a driver has no class of group snapshots.
pub open spec fn group_class_missing(driver: Seq<char>) -> Seq<char> {
    "no VolumeGroupSnapshotClass exists for CSI driver `"@ + driver
        + "`. Create one, or                      set `groupBy: None` to capture each PVC independently (many drivers support                      per-volume snapshots but not group snapshots)."@
}

/// The message where a driver has several classes of group snapshots.
pub open spec fn group_class_ambiguous(driver: Seq<char>, candidates: Seq<Seq<char>>) -> Seq<char> {
    "multiple VolumeGroupSnapshotClasses match driver `"@ + driver + "` ("@ + joined(
        candidates,
        ", "@,
    )
        + ") and none is                      the unique default; annotate one as the default class"@
}

/// The message where a shared snapshot does not hold a claim.
pub open spec fn not_captured(
    ns: Seq<char>,
    name: Seq<char>,
    pvc_namespace: Seq<char>,
    pvc_name: Seq<char>,
) -> Seq<char> {
    "VolumeGroupSnapshot `"@ + ns + "/"@ + name
        + "` became readyToUse but captured no                              member for PersistentVolumeClaim `"@
        + pvc_namespace + "/"@ + pvc_name
        + "`. Its                              labels most likely stopped matching the pvcSelector between                              expansion and capture (the snapshot-controller re-evaluates the                              selector when it creates the group), or the CSI driver excluded it.                              Check `kubectl -n "@
        + ns + " get volumegroupsnapshot "@ + name
        + " -o yaml`, or                              set `groupBy: None`. This Snapshot is terminal — the next scheduled                              run retries."@
}

/// What the classes of group snapshots come to for a driver.
pub enum GroupClassView {
    /// This one is used.
    Use(Seq<char>),
    /// None can be.
    Fail(Seq<char>),
}

/// Which class of group snapshots is used for a driver. None is asked for by name.
pub open spec fn group_class(classes: Option<Seq<ClassInfo>>, driver: Seq<char>) -> GroupClassView {
    match classes {
        None => GroupClassView::Fail(group_stack_missing()),
        Some(c) => match chosen_class(c, driver, None) {
            ClassDecisionView::Use(n) => GroupClassView::Use(n),
            ClassDecisionView::NoneForDriver(d) => GroupClassView::Fail(group_class_missing(d)),
            ClassDecisionView::ExplicitNotFound(d) => GroupClassView::Fail(group_class_missing(d)),
            ClassDecisionView::Ambiguous(d, names) => GroupClassView::Fail(
                group_class_ambiguous(d, names),
            ),
        },
    }
}

/// What can be said before the classes are listed: the driver, or why the group
/// cannot be staged.
pub fn group_driver<'a>(
    has_selector: bool,
    policy: &str,
    source_index: usize,
    ns: &str,
    name: &str,
    pvc_namespace: &str,
    pvc_name: &str,
    provisioner: Option<&'a str>,
) -> (r: Result<&'a str, GroupStage>)
    ensures
        if !has_selector {
            r matches Err(s) && s@ == GroupStageView::Failed(
                REASON_GROUP_MEMBER_MISSING@,
                selector_gone(ns@, name@, policy@, source_index as nat),
            )
        } else {
            match provisioner {
                None => r matches Err(s) && s@ == GroupStageView::Failed(
                    REASON_NO_GROUP_CLASS@,
                    driver_unknown(pvc_namespace@, pvc_name@),
                ),
                Some(p) => r == Ok::<&'a str, GroupStage>(p),
            }
        },
{
    if !has_selector {
        let mut m = "this Snapshot pins the VolumeGroupSnapshot `".to_owned();
        m.append(ns);
        m.append("/");
        m.append(name);
        m.append("`, but SnapshotPolicy                  `");
        m.append(policy);
        m.append("` source #");
        let number = decimal_text(source_index as u64);
        m.append(number.as_str());
        m.append(
            " no longer has a pvcSelector with a labelSelector —                  the recipe was edited mid-run. Delete this Snapshot and let the schedule                  re-fire.",
        );
        return Err(GroupStage::Failed { reason: REASON_GROUP_MEMBER_MISSING, message: m });
    }
    match provisioner {
        Some(p) => Ok(p),
        None => {
            let mut m = "PersistentVolumeClaim `".to_owned();
            m.append(pvc_namespace);
            m.append("/");
            m.append(pvc_name);
            m.append(
                "` has no StorageClass, so its                  CSI driver is unknown and no VolumeGroupSnapshotClass can be matched. Set                  `copyMethod: Direct`, or `groupBy: None`.",
            );
            Err(GroupStage::Failed { reason: REASON_NO_GROUP_CLASS, message: m })
        },
    }
}

fn group_class_missing_message(driver: &str) -> (r: String)
    ensures
        r@ == group_class_missing(driver@),
{
    let mut m = "no VolumeGroupSnapshotClass exists for CSI driver `".to_owned();
    m.append(driver);
    m.append(
        "`. Create one, or                      set `groupBy: None` to capture each PVC independently (many drivers support                      per-volume snapshots but not group snapshots).",
    );
    m
}

/// The class of group snapshots that is used for a driver, or why none can be.
/// Without a listing the API group is not served at all.
pub fn pick_group_class(classes: Option<&[ClassInfo]>, driver: &str) -> (r: Result<
    String,
    GroupStage,
>)
    ensures
        match (
            r,
            group_class(
                match classes {
                    Some(c) => Some(c@),
                    None => None,
                },
                driver@,
            ),
        ) {
            (Ok(n), GroupClassView::Use(want)) => n@ == want,
            (Err(s), GroupClassView::Fail(message)) => s@ == GroupStageView::Failed(
                REASON_NO_GROUP_CLASS@,
                message,
            ),
            _ => false,
        },
{
    let listed = match classes {
        Some(c) => c,
        None => {
            let mut m = "`groupBy: VolumeGroupSnapshot` needs the ".to_owned();
            m.append(GROUP_SNAPSHOT_GROUP);
            m.append(
                " API group, which                  this cluster does not serve. Install external-snapshotter 8.2+ (group snapshots                  are Beta from Kubernetes 1.32), or set `groupBy: None` to capture each PVC                  independently.",
            );
            return Err(GroupStage::Failed { reason: REASON_NO_GROUP_CLASS, message: m });
        },
    };
    match decide_class(listed, driver, None) {
        ClassDecision::Use(n) => Ok(n),
        ClassDecision::NoneForDriver(d) => Err(
            GroupStage::Failed {
                reason: REASON_NO_GROUP_CLASS,
                message: group_class_missing_message(d.as_str()),
            },
        ),
        ClassDecision::ExplicitNotFound(d) => Err(
            GroupStage::Failed {
                reason: REASON_NO_GROUP_CLASS,
                message: group_class_missing_message(d.as_str()),
            },
        ),
        ClassDecision::Ambiguous { driver: d, candidates } => {
            let mut m = "multiple VolumeGroupSnapshotClasses match driver `".to_owned();
            m.append(d.as_str());
            m.append("` (");
            let names = join(&candidates, ", ");
            m.append(names.as_str());
            m.append(
                ") and none is                      the unique default; annotate one as the default class",
            );
            Err(GroupStage::Failed { reason: REASON_NO_GROUP_CLASS, message: m })
        },
    }
}

/// Whether the wait for a shared snapshot is over, from a look at it. `Ok` where
/// its members are to be looked up. One that was just made may not be seen yet.
pub fn group_wait_stage(
    observed: Option<&VgsObservation>,
    ns: &str,
    name: &str,
    class: &str,
    timeout: Option<Span>,
    now: Moment,
) -> (r: Result<(), GroupStage>)
    requires
        observed matches Some(o) ==> (!o.ready ==> deadline_dated(timeout, o.created_at)),
    ensures
        match observed {
            None => r matches Err(s) && s@ == GroupStageView::Waiting(
                GROUP_STAGING_WAITING_REASON@,
                group_waiting(ns@, name@),
            ),
            Some(o) => match vgs_wait(
                o.ready,
                opt_text(o.error),
                o.created_at,
                ns@,
                name@,
                class@,
                timeout,
                now,
            ) {
                WaitView::Ready(_) => r is Ok,
                WaitView::Waiting(m) => r matches Err(s) && s@ == GroupStageView::Waiting(
                    GROUP_STAGING_WAITING_REASON@,
                    m,
                ),
                WaitView::Failed(reason, m) => r matches Err(s) && s@ == GroupStageView::Failed(
                    reason,
                    m,
                ),
            },
        },
{
    match observed {
        None => Err(
            GroupStage::Waiting {
                reason: GROUP_STAGING_WAITING_REASON,
                message: group_waiting_message(ns, name),
            },
        ),
        Some(o) => match vgs_wait_outcome(o, ns, name, class, timeout, now) {
            VgsWait::Ready => Ok(()),
            VgsWait::Waiting(message) => Err(
                GroupStage::Waiting { reason: GROUP_STAGING_WAITING_REASON, message },
            ),
            VgsWait::Failed { reason, message } => Err(GroupStage::Failed { reason, message }),
        },
    }
}

/// The member's own snapshot of a usable shared one. Where there is none, the
/// capture was not of this claim, and no neighbour's snapshot takes its place.
pub fn group_member_stage(
    members: &GroupMembers,
    ns: &str,
    name: &str,
    pvc_namespace: &str,
    pvc_name: &str,
) -> (r: GroupStage)
    ensures
        r@ == if members@.dom().contains((pvc_namespace@, pvc_name@)) {
            let m = members@[(pvc_namespace@, pvc_name@)];
            GroupStageView::Ready(m.0, m.1)
        } else {
            GroupStageView::Failed(
                REASON_GROUP_MEMBER_MISSING@,
                not_captured(ns@, name@, pvc_namespace@, pvc_name@),
            )
        },
{
    match members.get(pvc_namespace, pvc_name) {
        Some(m) => GroupStage::Ready {
            member: GroupMember {
                volume_snapshot_name: m.volume_snapshot_name.clone(),
                restore_size: copy_opt(&m.restore_size),
            },
        },
        None => {
            let mut m = "VolumeGroupSnapshot `".to_owned();
            m.append(ns);
            m.append("/");
            m.append(name);
            m.append(
                "` became readyToUse but captured no                              member for PersistentVolumeClaim `",
            );
            m.append(pvc_namespace);
            m.append("/");
            m.append(pvc_name);
            m.append(
                "`. Its                              labels most likely stopped matching the pvcSelector between                              expansion and capture (the snapshot-controller re-evaluates the                              selector when it creates the group), or the CSI driver excluded it.                              Check `kubectl -n ",
            );
            m.append(ns);
            m.append(" get volumegroupsnapshot ");
            m.append(name);
            m.append(
                " -o yaml`, or                              set `groupBy: None`. This Snapshot is terminal — the next scheduled                              run retries.",
            );
            GroupStage::Failed { reason: REASON_GROUP_MEMBER_MISSING, message: m }
        },
    }
}

/// Every member comes from a snapshot of the group itself that was traced to the
/// member's claim: none is guessed, and none is another group's.
pub proof fn lemma_members_are_traced(
    members: Seq<MemberVs>,
    contents: Seq<ContentInfo>,
    pvs: Seq<PvInfo>,
    group: Seq<char>,
    claim: (Seq<char>, Seq<char>),
)
    requires
        captured(members, contents, pvs, group).dom().contains(claim),
    ensures
        exists|i: int|
            0 <= i < members.len() && captured_claim(
                #[trigger] members[i],
                contents,
                pvs,
                group,
            ) == Some(claim) && opt_text(members[i].group) == Some(group) && captured(
                members,
                contents,
                pvs,
                group,
            )[claim] == (members[i].name@, opt_text(members[i].restore_size)),
    decreases members.len(),
{
    let m = members.last();
    if captured_claim(m, contents, pvs, group) == Some(claim) {
        assert(members[members.len() - 1] == m);
    } else {
        lemma_members_are_traced(members.drop_last(), contents, pvs, group, claim);
        let i = choose|i: int|
            0 <= i < members.drop_last().len() && captured_claim(
                #[trigger] members.drop_last()[i],
                contents,
                pvs,
                group,
            ) == Some(claim) && opt_text(members.drop_last()[i].group) == Some(group) && captured(
                members.drop_last(),
                contents,
                pvs,
                group,
            )[claim] == (
                members.drop_last()[i].name@,
                opt_text(members.drop_last()[i].restore_size),
            );
        assert(members[i] == members.drop_last()[i]);
    }
}

/// A snapshot of another group changes nothing about the members of this one.
pub proof fn lemma_other_groups_are_ignored(
    members: Seq<MemberVs>,
    contents: Seq<ContentInfo>,
    pvs: Seq<PvInfo>,
    group: Seq<char>,
    other: MemberVs,
)
    requires
        opt_text(other.group) != Some(group),
    ensures
        captured(members.push(other), contents, pvs, group) == captured(
            members,
            contents,
            pvs,
            group,
        ),
{
    assert(members.push(other).drop_last() =~= members);
}

/// The shared snapshot is kept as long as one member is not done, or holds a
/// staged claim, or could not be looked at.
pub proof fn lemma_reaping_fails_closed(siblings: Seq<SiblingState>, i: int)
    ensures
        !unused(None),
        0 <= i < siblings.len() && (!siblings[i].terminal || siblings[i].staged_pvc_present)
            ==> !unused(Some(siblings)),
{
    if all_done(siblings) && 0 <= i < siblings.len() {
        assert(siblings[i].terminal && !siblings[i].staged_pvc_present);
    }
}

/// The rules of a single snapshot's wait hold of a shared one: usable wins, only
/// the deadline fails it, and a waiting message does not change with the clock.
pub proof fn lemma_group_waits_alike(
    error: Option<Seq<char>>,
    created: Option<i64>,
    ns: Seq<char>,
    name: Seq<char>,
    class: Seq<char>,
    timeout: Option<Span>,
    now: Moment,
    later: Moment,
)
    ensures
        vgs_wait(true, error, created, ns, name, class, timeout, now) is Ready,
        vgs_wait(false, error, created, ns, name, class, timeout, now) is Failed <==> expired(
            timeout,
            created,
            now,
        ),
        ({
            let a = vgs_wait(false, error, created, ns, name, class, timeout, now);
            let b = vgs_wait(false, error, created, ns, name, class, timeout, later);
            a is Waiting && b is Waiting ==> a == b
        }),
{
}

/// The kind `VolumeGroupSnapshot`: one snapshot of several volumes.
pub fn volume_group_snapshot_ar() -> (r: ApiResource)
    ensures
        r.has_names(
            GROUP_SNAPSHOT_GROUP@,
            GROUP_SNAPSHOT_VERSION@,
            "VolumeGroupSnapshot"@,
            "volumegroupsnapshots"@,
        ),
{
    ApiResource::named(
        GROUP_SNAPSHOT_GROUP,
        GROUP_SNAPSHOT_VERSION,
        "VolumeGroupSnapshot",
        "volumegroupsnapshots",
    )
}

/// The kind `VolumeGroupSnapshotClass`: how volumes are snapshotted together.
pub fn volume_group_snapshot_class_ar() -> (r: ApiResource)
    ensures
        r.has_names(
            GROUP_SNAPSHOT_GROUP@,
            GROUP_SNAPSHOT_VERSION@,
            "VolumeGroupSnapshotClass"@,
            "volumegroupsnapshotclasses"@,
        ),
{
    ApiResource::named(
        GROUP_SNAPSHOT_GROUP,
        GROUP_SNAPSHOT_VERSION,
        "VolumeGroupSnapshotClass",
        "volumegroupsnapshotclasses",
    )
}

/// A run is over where it succeeded, failed or found nothing to do. One that has no phase
/// yet, or waits, runs, was discovered or is being deleted is not.
pub proof fn lemma_final_phases()
    ensures
        phase_is_final(Some(SnapshotPhase::Succeeded)),
        phase_is_final(Some(SnapshotPhase::Failed)),
        phase_is_final(Some(SnapshotPhase::Unchanged)),
        !phase_is_final(Some(SnapshotPhase::Pending)),
        !phase_is_final(Some(SnapshotPhase::Running)),
        !phase_is_final(Some(SnapshotPhase::Discovered)),
        !phase_is_final(Some(SnapshotPhase::Deleting)),
        !phase_is_final(None),
{
}

/// The shared snapshot is removed exactly where every member's run is over and no member
/// has a staged claim. A member that has not begun keeps it, though it has no claim yet.
pub proof fn lemma_the_group_outlives_its_members(
    members: Seq<(Option<SnapshotPhase>, Option<bool>)>,
    states: Seq<SiblingState>,
)
    requires
        states_fit(members, states),
    ensures
        unused(Some(states)) <==> forall|i: int|
            #![trigger members[i]]
            0 <= i < members.len() ==> (match members[i].0 {
                Some(SnapshotPhase::Succeeded)
                | Some(SnapshotPhase::Failed)
                | Some(SnapshotPhase::Unchanged) => true,
                Some(SnapshotPhase::Pending)
                | Some(SnapshotPhase::Running)
                | Some(SnapshotPhase::Discovered)
                | Some(SnapshotPhase::Deleting) => false,
                None => false,
            }) && members[i].1 == Some(false),
{
    lemma_final_phases();
    if unused(Some(states)) {
        assert forall|i: int| #![trigger members[i]] 0 <= i < members.len() implies phase_is_final(
            members[i].0,
        ) && members[i].1 == Some(false) by {
            assert(state_fits(members[i], states[i]));
            assert(states[i].terminal && !states[i].staged_pvc_present);
        }
    }
    if forall|i: int|
        #![trigger members[i]]
        0 <= i < members.len() ==> phase_is_final(members[i].0) && members[i].1 == Some(false) {
        assert forall|i: int| 0 <= i < states.len() implies (#[trigger] states[i]).terminal
            && !states[i].staged_pvc_present by {
            assert(state_fits(members[i], states[i]));
        }
    }
}

/// What is not known of one member is not known of the group.
pub proof fn lemma_one_unread_member(members: Seq<(Option<SnapshotPhase>, Option<bool>)>, i: int)
    requires
        0 <= i < members.len(),
    ensures
        members[i].1 is None ==> unread_among(members),
        unread_among(members) ==> exists|j: int|
            0 <= j < members.len() && (#[trigger] members[j]).1 is None,
{
}

proof fn lemma_handle_of(contents: Seq<ContentInfo>, name: Seq<char>)
    ensures
        handle_of(contents, name) matches Some(h) ==> exists|c: int|
            0 <= c < contents.len() && (#[trigger] contents[c]).name@ == name && opt_text(
                contents[c].volume_handle,
            ) == Some(h),
        handle_of(contents, name) is None ==> forall|c: int|
            0 <= c < contents.len() && (#[trigger] contents[c]).name@ == name
                ==> contents[c].volume_handle is None,
    decreases contents.len(),
{
    if contents.len() > 0 {
        let front = contents.drop_last();
        lemma_handle_of(front, name);
        let last = contents[contents.len() - 1];
        if !(last.name@ == name && last.volume_handle is Some) {
            if handle_of(front, name) is Some {
                let c = choose|c: int|
                    0 <= c < front.len() && (#[trigger] front[c]).name@ == name && opt_text(
                        front[c].volume_handle,
                    ) == handle_of(front, name);
                assert(contents[c] == front[c]);
            } else {
                assert forall|c: int|
                    0 <= c < contents.len() && (#[trigger] contents[c]).name@ == name implies contents[c].volume_handle is None by {
                    if c < front.len() {
                        assert(front[c] == contents[c]);
                    }
                }
            }
        }
    }
}

proof fn lemma_claim_of(pvs: Seq<PvInfo>, handle: Seq<char>)
    ensures
        claim_of(pvs, handle) matches Some(k) ==> exists|p: int|
            0 <= p < pvs.len() && (#[trigger] pvs[p]).volume_handle@ == handle && k == (
                pvs[p].claim_namespace@,
                pvs[p].claim_name@,
            ),
        claim_of(pvs, handle) is None ==> forall|p: int|
            0 <= p < pvs.len() ==> (#[trigger] pvs[p]).volume_handle@ != handle,
    decreases pvs.len(),
{
    if pvs.len() > 0 {
        let front = pvs.drop_last();
        lemma_claim_of(front, handle);
        let last = pvs[pvs.len() - 1];
        if last.volume_handle@ != handle {
            if claim_of(front, handle) is Some {
                let p = choose|p: int|
                    0 <= p < front.len() && (#[trigger] front[p]).volume_handle@ == handle
                        && claim_of(front, handle) == Some(
                        (front[p].claim_namespace@, front[p].claim_name@),
                    );
                assert(pvs[p] == front[p]);
            } else {
                assert forall|p: int| 0 <= p < pvs.len() implies (#[trigger] pvs[p]).volume_handle@
                    != handle by {
                    if p < front.len() {
                        assert(front[p] == pvs[p]);
                    }
                }
            }
        }
    }
}

/// A member's claim is found in three hops: the snapshot of the group names a content, the
/// content of that name was taken of a volume, and the volume is bound to the claim. It is
/// told with that snapshot's own name and size.
pub proof fn lemma_members_are_found_in_three_hops(
    members: Seq<MemberVs>,
    contents: Seq<ContentInfo>,
    pvs: Seq<PvInfo>,
    group: Seq<char>,
    claim: (Seq<char>, Seq<char>),
)
    requires
        captured(members, contents, pvs, group).dom().contains(claim),
    ensures
        exists|i: int, c: int, p: int|
            #![trigger members[i], contents[c], pvs[p]]
            0 <= i < members.len() && 0 <= c < contents.len() && 0 <= p < pvs.len() && opt_text(
                members[i].group,
            ) == Some(group) && opt_text(members[i].content) == Some(contents[c].name@) && opt_text(
                contents[c].volume_handle,
            ) == Some(pvs[p].volume_handle@) && claim == (
                pvs[p].claim_namespace@,
                pvs[p].claim_name@,
            ) && captured(members, contents, pvs, group)[claim] == (
                members[i].name@,
                opt_text(members[i].restore_size),
            ),
{
    lemma_members_are_traced(members, contents, pvs, group, claim);
    let i = choose|i: int|
        0 <= i < members.len() && captured_claim(#[trigger] members[i], contents, pvs, group) == Some(
            claim,
        ) && opt_text(members[i].group) == Some(group) && captured(members, contents, pvs, group)[claim]
            == (members[i].name@, opt_text(members[i].restore_size));
    let name = opt_text(members[i].content)->0;
    lemma_handle_of(contents, name);
    let h = handle_of(contents, name)->0;
    let c = choose|c: int|
        0 <= c < contents.len() && (#[trigger] contents[c]).name@ == name && opt_text(
            contents[c].volume_handle,
        ) == Some(h);
    lemma_claim_of(pvs, h);
    let p = choose|p: int|
        0 <= p < pvs.len() && (#[trigger] pvs[p]).volume_handle@ == h && claim == (
            pvs[p].claim_namespace@,
            pvs[p].claim_name@,
        );
    assert(members[i] == members[i] && contents[c] == contents[c] && pvs[p] == pvs[p]);
}

/// No member that can be traced is left out: where the three hops lead from a snapshot of
/// the group to a claim, and no other content or volume goes by the same name, the claim is
/// among the members.
pub proof fn lemma_no_traceable_member_is_left_out(
    members: Seq<MemberVs>,
    contents: Seq<ContentInfo>,
    pvs: Seq<PvInfo>,
    group: Seq<char>,
    i: int,
    c: int,
    p: int,
)
    requires
        0 <= i < members.len(),
        0 <= c < contents.len(),
        0 <= p < pvs.len(),
        opt_text(members[i].group) == Some(group),
        opt_text(members[i].content) == Some(contents[c].name@),
        opt_text(contents[c].volume_handle) == Some(pvs[p].volume_handle@),
        forall|d: int|
            0 <= d < contents.len() && d != c ==> (#[trigger] contents[d]).name@ != contents[c].name@,
        forall|q: int|
            0 <= q < pvs.len() && q != p ==> (#[trigger] pvs[q]).volume_handle@
                != pvs[p].volume_handle@,
    ensures
        captured(members, contents, pvs, group).dom().contains(
            (pvs[p].claim_namespace@, pvs[p].claim_name@),
        ),
    decreases members.len(),
{
    let name = contents[c].name@;
    let handle = pvs[p].volume_handle@;
    lemma_handle_of(contents, name);
    lemma_claim_of(pvs, handle);
    assert(contents[c].name@ == name && contents[c].volume_handle is Some);
    assert(handle_of(contents, name) == Some(handle));
    assert(pvs[p].volume_handle@ == handle);
    assert(claim_of(pvs, handle) == Some((pvs[p].claim_namespace@, pvs[p].claim_name@)));
    assert(captured_claim(members[i], contents, pvs, group) == Some(
        (pvs[p].claim_namespace@, pvs[p].claim_name@),
    ));
    let front = members.drop_last();
    if i < members.len() - 1 {
        assert(front[i] == members[i]);
        lemma_no_traceable_member_is_left_out(front, contents, pvs, group, i, c, p);
    } else {
        assert(members.last() == members[i]);
    }
}

/// The members are kept by namespace and name of their claims: an entry is found under
/// both, as it was last entered, and no other entry changes by it.
pub proof fn lemma_members_are_kept(
    entries: Seq<(String, String, GroupMember)>,
    new: (String, String, GroupMember),
    key: (Seq<char>, Seq<char>),
)
    ensures
        members_map(Seq::empty()) == Map::<(Seq<char>, Seq<char>), (Seq<char>, Option<Seq<char>>)>::empty(),
        members_map(entries.push(new))[(new.0@, new.1@)] == (
            new.2.volume_snapshot_name@,
            opt_text(new.2.restore_size),
        ),
        members_map(entries.push(new)).dom().contains((new.0@, new.1@)),
        key != (new.0@, new.1@) ==> (members_map(entries.push(new)).dom().contains(key)
            <==> members_map(entries).dom().contains(key)),
        key != (new.0@, new.1@) && members_map(entries).dom().contains(key) ==> members_map(
            entries.push(new),
        )[key] == members_map(entries)[key],
{
    assert(entries.push(new).drop_last() =~= entries);
}

/// How a wait for a shared snapshot stands, and why it failed.
pub proof fn lemma_how_a_group_stands(
    ready: bool,
    error: Option<Seq<char>>,
    created: Option<i64>,
    ns: Seq<char>,
    name: Seq<char>,
    class: Seq<char>,
    timeout: Option<Span>,
    now: Moment,
)
    ensures
        ({
            let w = vgs_wait(ready, error, created, ns, name, class, timeout, now);
            &&& w is Ready <==> ready
            &&& w is Failed <==> !ready && expired(timeout, created, now)
            &&& w matches WaitView::Failed(reason, _) ==> reason == if error is Some {
                REASON_VGS_FAILED@
            } else {
                REASON_GROUP_STAGING_TIMEOUT@
            }
        }),
{
}

/// The class of a shared snapshot is chosen as a single snapshot's is where none is asked
/// for; without one the capture fails.
pub proof fn lemma_group_classes(classes: Option<Seq<ClassInfo>>, driver: Seq<char>)
    ensures
        classes is None ==> group_class(classes, driver) is Fail,
        classes matches Some(c) ==> (group_class(classes, driver) is Use <==> chosen_class(
            c,
            driver,
            None,
        ) is Use),
        classes matches Some(c) ==> (chosen_class(c, driver, None) matches ClassDecisionView::Use(n)
            ==> group_class(classes, driver) == GroupClassView::Use(n)),
{
}

/// What a shared snapshot is asked for: its class, and the claims that the selector
/// selects.
pub proof fn lemma_what_a_group_asks_for(class: Seq<char>, selector: Tree)
    ensures
        child_of(child(group_data(class, selector), "spec"@), "volumeGroupSnapshotClassName"@)
            == Some(Tree::Text(class)),
        child_of(
            child_of(child(group_data(class, selector), "spec"@), "source"@),
            "selector"@,
        ) == Some(selector),
{
    reveal_strlit("source");
    reveal_strlit("volumeGroupSnapshotClassName");
    assert("source"@.len() != "volumeGroupSnapshotClassName"@.len());
}

/// What the messages about a group tell: which group, which claim, which driver, and what
/// is missing.
pub proof fn lemma_what_group_messages_tell(
    ns: Seq<char>,
    name: Seq<char>,
    policy: Seq<char>,
    index: nat,
    pvc_ns: Seq<char>,
    pvc: Seq<char>,
    driver: Seq<char>,
    candidates: Seq<Seq<char>>,
)
    ensures
        group_waiting(ns, name) == "waiting for VolumeGroupSnapshot `"@ + ns + "/"@ + name
            + "` to become readyToUse"@,
        holds_text(
            selector_gone(ns, name, policy, index),
            "this Snapshot pins the VolumeGroupSnapshot `"@ + ns + "/"@ + name,
        ),
        holds_text(selector_gone(ns, name, policy, index), policy),
        holds_text(selector_gone(ns, name, policy, index), decimal(index)),
        holds_text(
            driver_unknown(pvc_ns, pvc),
            "PersistentVolumeClaim `"@ + pvc_ns + "/"@ + pvc,
        ),
        holds_text(
            group_class_missing(driver),
            "no VolumeGroupSnapshotClass exists for CSI driver `"@ + driver,
        ),
        holds_text(
            group_class_ambiguous(driver, candidates),
            "multiple VolumeGroupSnapshotClasses match driver `"@ + driver,
        ),
        holds_text(group_class_ambiguous(driver, candidates), joined(candidates, ", "@)),
        holds_text(group_stack_missing(), "groupsnapshot.storage.k8s.io"@),
        holds_text(
            not_captured(ns, name, pvc_ns, pvc),
            "VolumeGroupSnapshot `"@ + ns + "/"@ + name,
        ),
        holds_text(not_captured(ns, name, pvc_ns, pvc), pvc_ns),
        holds_text(not_captured(ns, name, pvc_ns, pvc), pvc),
{
    broadcast use lemma_holds_end, lemma_holds_on, lemma_holds_itself;

}

/// What the message of a failed group tells.
pub proof fn lemma_what_a_failed_group_tells(
    e: Seq<char>,
    created: Option<i64>,
    ns: Seq<char>,
    name: Seq<char>,
    class: Seq<char>,
    timeout: Option<Span>,
    now: Moment,
)
    ensures
        expired(timeout, created, now) ==> (vgs_wait(
            false,
            Some(e),
            created,
            ns,
            name,
            class,
            timeout,
            now,
        ) matches WaitView::Failed(_, m) && holds_text(
            m,
            "VolumeGroupSnapshot `"@ + ns + "/"@ + name + "` did not become readyToUse within "@
                + waited(timeout),
        ) && holds_text(m, e) && holds_text(m, class)),
        expired(timeout, created, now) ==> (vgs_wait(
            false,
            None,
            created,
            ns,
            name,
            class,
            timeout,
            now,
        ) matches WaitView::Failed(_, m) && holds_text(
            m,
            "VolumeGroupSnapshot `"@ + ns + "/"@ + name + "` did not become readyToUse within "@
                + waited(timeout),
        )),
        !expired(timeout, created, now) ==> vgs_wait(
            false,
            Some(e),
            created,
            ns,
            name,
            class,
            timeout,
            now,
        ) == WaitView::Waiting(
            group_waiting(ns, name) + error_clause(Some(e)) + deadline_clause(
                deadline(timeout, created),
                "not ready"@,
            ),
        ),
{
    broadcast use lemma_holds_end, lemma_holds_on, lemma_holds_itself;

}

/// What a state says of a member, and what a stage says of a group.
pub proof fn lemma_what_states_say(
    member: (Option<SnapshotPhase>, Option<bool>),
    s: SiblingState,
    m: GroupMember,
)
    ensures
        state_fits(member, s) <==> member.1 == Some(s.staged_pvc_present) && (s.terminal <==> (
        member.0 == Some(SnapshotPhase::Succeeded) || member.0 == Some(SnapshotPhase::Failed)
            || member.0 == Some(SnapshotPhase::Unchanged))),
        member_view(m) == (m.volume_snapshot_name@, opt_text(m.restore_size)),
        unused(None) == false,
        forall|v: Seq<SiblingState>| #[trigger]
            unused(Some(v)) <==> forall|i: int|
                0 <= i < v.len() ==> (#[trigger] v[i]).terminal && !v[i].staged_pvc_present,
{
}

/// What a wait and a stage say is what they carry: a member's own snapshot and size, or the
/// reason and the message.
pub proof fn lemma_what_stages_say(w: VgsWait, s: GroupStage)
    ensures
        w is Ready ==> w@ == WaitView::Ready(None),
        w matches VgsWait::Waiting(m) ==> w@ == WaitView::Waiting(m@),
        w matches VgsWait::Failed { reason, message } ==> w@ == WaitView::Failed(reason@, message@),
        s matches GroupStage::Ready { member } ==> s@ == GroupStageView::Ready(
            member.volume_snapshot_name@,
            opt_text(member.restore_size),
        ),
        s matches GroupStage::Waiting { reason, message } ==> s@ == GroupStageView::Waiting(
            reason@,
            message@,
        ),
        s matches GroupStage::Failed { reason, message } ==> s@ == GroupStageView::Failed(
            reason@,
            message@,
        ),
{
}

} // verus!
