//! Metadata of the cluster's objects.
use vstd::prelude::*;
use vstd::string::*;

use crate::strmap::StringMap;

verus! {

/// A reference to an owner.
#[derive(Debug, Clone, PartialEq, Eq)]
pub struct OwnerReference {
    /// The version of the owner's API.
    pub api_version: String,
    /// The owner's kind.
    pub kind: String,
    /// The owner's name.
    pub name: String,
    /// The owner's unique id.
    pub uid: String,
    /// Whether the owner controls the object.
    pub controller: Option<bool>,
    /// Whether the object holds up the deletion of its owner.
    pub block_owner_deletion: Option<bool>,
}

/// The metadata of an object, as far as ownership goes.
#[derive(Debug, Clone, PartialEq, Eq)]
pub struct ObjectMeta {
    /// Its labels.
    pub labels: Option<StringMap>,
    /// Its owners.
    pub owner_references: Vec<OwnerReference>,
}

impl OwnerReference {
    /// A copy of the reference.
    pub fn copy(&self) -> (r: OwnerReference)
        ensures
            r == *self,
    {
        OwnerReference {
            api_version: self.api_version.clone(),
            kind: self.kind.clone(),
            name: self.name.clone(),
            uid: self.uid.clone(),
            controller: self.controller,
            block_owner_deletion: self.block_owner_deletion,
        }
    }
}

/// The first owner of a list that controls the object.
pub open spec fn controlling(owners: Seq<OwnerReference>) -> Option<OwnerReference>
    decreases owners.len(),
{
    if owners.len() == 0 {
        None
    } else if owners.first().controller == Some(true) {
        Some(owners.first())
    } else {
        controlling(owners.drop_first())
    }
}

/// The first owner of a list that controls the object.
pub fn controlling_owner(owners: &Vec<OwnerReference>) -> (r: Option<&OwnerReference>)
    ensures
        match (r, controlling(owners@)) {
            (Some(a), Some(b)) => *a == b,
            (None, None) => true,
            _ => false,
        },
{
    let mut i: usize = 0;
    assert(owners@.skip(0) =~= owners@);
    while i < owners.len()
        invariant
            i <= owners@.len(),
            controlling(owners@) == controlling(owners@.skip(i as int)),
        decreases owners@.len() - i,
    {
        assert(owners@.skip(i as int).drop_first() =~= owners@.skip(i + 1));
        match owners[i].controller {
            Some(true) => {
                return Some(&owners[i]);
            },
            _ => {},
        }
        i += 1;
    }
    None
}

/// A kind of object that the API server serves.
#[derive(Debug, Clone, PartialEq, Eq)]
pub struct ApiResource {
    /// Its group; empty for the core group.
    pub group: String,
    /// Its version.
    pub version: String,
    /// Group and version in one.
    pub api_version: String,
    /// Its kind.
    pub kind: String,
    /// Its plural, as URLs have it.
    pub plural: String,
}

/// Group and version in one.
pub open spec fn group_version(group: Seq<char>, version: Seq<char>) -> Seq<char> {
    if group.len() == 0 {
        version
    } else {
        group + "/"@ + version
    }
}

impl ApiResource {
    /// Whether this is the kind with these names.
    pub open spec fn has_names(
        self,
        group: Seq<char>,
        version: Seq<char>,
        kind: Seq<char>,
        plural: Seq<char>,
    ) -> bool {
        &&& self.group@ == group
        &&& self.version@ == version
        &&& self.api_version@ == group_version(group, version)
        &&& self.kind@ == kind
        &&& self.plural@ == plural
    }

    /// The kind with these names.
    pub fn named(group: &str, version: &str, kind: &str, plural: &str) -> (r: ApiResource)
        ensures
            r.has_names(group@, version@, kind@, plural@),
    {
        let mut api_version = group.to_owned();
        if group.unicode_len() == 0 {
            api_version = version.to_owned();
        } else {
            api_version.append("/");
            api_version.append(version);
        }
        ApiResource {
            group: group.to_owned(),
            version: version.to_owned(),
            api_version,
            kind: kind.to_owned(),
            plural: plural.to_owned(),
        }
    }
}

/// The controlling owner is one of the owners that says so, the first of them, and there
/// is none only where no owner does.
pub proof fn lemma_who_controls(owners: Seq<OwnerReference>)
    ensures
        controlling(owners) is None <==> forall|i: int|
            0 <= i < owners.len() ==> (#[trigger] owners[i]).controller != Some(true),
        controlling(owners) matches Some(r) ==> exists|i: int|
            0 <= i < owners.len() && #[trigger] owners[i] == r && r.controller == Some(true) && forall|
                j: int,
            |
                0 <= j < i ==> (#[trigger] owners[j]).controller != Some(true),
    decreases owners.len(),
{
    if owners.len() > 0 {
        let rest = owners.drop_first();
        lemma_who_controls(rest);
        if owners[0].controller == Some(true) {
            assert(owners[0] == owners.first());
        } else if controlling(rest) is Some {
            let r = controlling(rest)->0;
            let i = choose|i: int|
                0 <= i < rest.len() && #[trigger] rest[i] == r && r.controller == Some(true)
                    && forall|j: int| 0 <= j < i ==> (#[trigger] rest[j]).controller != Some(true);
            assert(owners[i + 1] == r);
            assert forall|j: int| 0 <= j < i + 1 implies (#[trigger] owners[j]).controller != Some(true) by {
                if j > 0 {
                    assert(rest[j - 1] == owners[j]);
                }
            }
        } else {
            assert forall|i: int| 0 <= i < owners.len() implies (#[trigger] owners[i]).controller
                != Some(true) by {
                if i > 0 {
                    assert(rest[i - 1] == owners[i]);
                }
            }
        }
    }
}

/// Group and version are told with a slash between them; the core group has no name.
pub proof fn lemma_group_versions(group: Seq<char>, version: Seq<char>)
    ensures
        group_version(Seq::empty(), version) == version,
        group.len() > 0 ==> group_version(group, version) == group + seq!['/'] + version,
{
    reveal_strlit("/");
    assert("/"@ =~= seq!['/']);
}

/// What a kind is called: each name stands in its own place, and the group and the version
/// together too.
pub proof fn lemma_names_of_a_kind(
    r: ApiResource,
    group: Seq<char>,
    version: Seq<char>,
    kind: Seq<char>,
    plural: Seq<char>,
)
    requires
        r.has_names(group, version, kind, plural),
    ensures
        r.group@ == group,
        r.version@ == version,
        r.kind@ == kind,
        r.plural@ == plural,
        group.len() > 0 ==> r.api_version@ == group + seq!['/'] + version,
{
    lemma_group_versions(group, version);
}

} // verus!
