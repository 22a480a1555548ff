//! How many Snapshots are being deleted, for each repository that they are pinned to.
use vstd::prelude::*;

use crate::metrics::observe::repo_gauge_attrs;
use crate::metrics::series::{
    Label, Snapshot, counts_toward_deletion_gauge, deletion_held, deletion_pending, held,
    label_views, lemma_same_table, pin_of, pinned_labels,
};
use crate::metrics::table::{Key, Row, has_key, key_of, place, put, tabulates};
use crate::naming::{RepositoryKind, RepositoryRef};

verus! {

/// How many Snapshots that are pinned to a repository are being deleted.
#[derive(Debug, Clone, PartialEq, Eq)]
pub struct RepoDeletions {
    /// The kind of the repository.
    pub repo_kind: String,
    /// Its name.
    pub repo_name: String,
    /// How many are being deleted.
    pub count: i64,
}

/// What the deletion of a Snapshot is counted by: the values of the labels for the
/// repository that it is pinned to.
pub open spec fn pin_key(s: Snapshot) -> Key {
    let labels = pinned_labels(pin_of(s));
    (labels[0].1, Some(labels[1].1))
}

/// Whether the deletion of a Snapshot is counted: one that is pending, or only one
/// that is held back too.
pub open spec fn deletion_counted(s: Snapshot, held_only: bool) -> bool {
    deletion_pending(s) && (held_only ==> held(s))
}

/// How many deletions are counted by a key.
pub open spec fn deletions_for(v: Seq<Snapshot>, held_only: bool, k: Key) -> nat {
    v.filter(|s: Snapshot| deletion_counted(s, held_only) && pin_key(s) == k).len()
}

/// The same, where there are any.
pub open spec fn some_deletions_for(v: Seq<Snapshot>, held_only: bool, k: Key) -> Option<i64> {
    if deletions_for(v, held_only, k) > 0 {
        Some(deletions_for(v, held_only, k) as i64)
    } else {
        None
    }
}

/// Such a row as part of a table.
pub open spec fn deletion_row(p: RepoDeletions) -> Row<i64> {
    Row { first: p.repo_kind, second: Some(p.repo_name), value: p.count }
}

/// Such rows as a table.
pub open spec fn deletion_table(rows: Seq<RepoDeletions>) -> Seq<Row<i64>> {
    rows.map_values(|p: RepoDeletions| deletion_row(p))
}

/// Whether rows are, for each pinned repository, how many deletions are counted.
pub open spec fn deletion_rows(rows: Seq<RepoDeletions>, v: Seq<Snapshot>, held_only: bool) -> bool {
    tabulates(deletion_table(rows), |k: Key| some_deletions_for(v, held_only, k))
}

proof fn lemma_deletions_step(v: Seq<Snapshot>, held_only: bool, k: Key)
    requires
        v.len() > 0,
    ensures
        deletions_for(v, held_only, k) == deletions_for(v.drop_last(), held_only, k) + (if deletion_counted(
            v.last(),
            held_only,
        ) && pin_key(v.last()) == k {
            1nat
        } else {
            0nat
        }),
{
    reveal(Seq::filter);
}

proof fn lemma_none_of_none(held_only: bool, k: Key)
    ensures
        deletions_for(seq![], held_only, k) == 0,
{
    reveal(Seq::filter);
}

proof fn lemma_deletions_at_most_all(v: Seq<Snapshot>, held_only: bool, k: Key)
    ensures
        deletions_for(v, held_only, k) <= v.len(),
    decreases v.len(),
{
    if v.len() == 0 {
        assert(v =~= seq![]);
        lemma_none_of_none(held_only, k);
    } else {
        lemma_deletions_step(v, held_only, k);
        lemma_deletions_at_most_all(v.drop_last(), held_only, k);
    }
}

proof fn lemma_deletions_have_name(v: Seq<Snapshot>, held_only: bool, k: Key)
    ensures
        deletions_for(v, held_only, k) > 0 ==> k.1 is Some,
    decreases v.len(),
{
    if v.len() == 0 {
        assert(v =~= seq![]);
        lemma_none_of_none(held_only, k);
    } else {
        lemma_deletions_step(v, held_only, k);
        lemma_deletions_have_name(v.drop_last(), held_only, k);
    }
}

fn pin_labels(s: &Snapshot) -> (r: Vec<Label>)
    ensures
        label_views(r@) == pinned_labels(pin_of(*s)),
{
    let pinned: Option<&RepositoryRef> = match &s.status {
        Some(st) => match &st.repository {
            Some(r) => Some(r),
            None => None,
        },
        None => None,
    };
    repo_gauge_attrs(pinned)
}

/// For each repository that Snapshots are pinned to how many of them are being
/// deleted and still kept for their clean-up, or only those that are held back too;
/// Snapshots that are pinned to none share a row. The rows are in the order of kind
/// and name.
pub fn deletion_counts(snapshots: &Vec<Snapshot>, held_only: bool) -> (r: Vec<RepoDeletions>)
    requires
        snapshots@.len() <= i64::MAX,
    ensures
        deletion_rows(r@, snapshots@, held_only),
{
    let ghost v = snapshots@;
    let mut rows: Vec<Row<i64>> = Vec::new();
    let mut i: usize = 0;
    proof {
        assert(v.take(0) =~= seq![]);
        assert forall|k: Key| (#[trigger] some_deletions_for(v.take(0), held_only, k)) is None by {
            lemma_none_of_none(held_only, k);
        }
    }
    while i < snapshots.len()
        invariant
            i <= v.len(),
            v == snapshots@,
            v.len() <= i64::MAX,
            tabulates(rows@, |k: Key| some_deletions_for(v.take(i as int), held_only, k)),
        decreases v.len() - i,
    {
        let s = &snapshots[i];
        let ghost f = |k: Key| some_deletions_for(v.take(i as int), held_only, k);
        let ghost g = |k: Key| some_deletions_for(v.take(i + 1), held_only, k);
        proof {
            assert(v.take(i + 1).drop_last() =~= v.take(i as int));
            assert(v.take(i + 1).last() == *s);
            assert forall|k: Key| deletions_for(v.take(i + 1), held_only, k) == #[trigger] deletions_for(
                v.take(i as int),
                held_only,
                k,
            ) + (if deletion_counted(*s, held_only) && pin_key(*s) == k {
                1nat
            } else {
                0nat
            }) by {
                lemma_deletions_step(v.take(i + 1), held_only, k);
            }
        }
        if counts_toward_deletion_gauge(s) && (!held_only || deletion_held(s)) {
            let labels = pin_labels(s);
            let ghost views = label_views(labels@);
            assert(views.len() == 2 && labels@.len() == 2);
            let kind = labels[0].value.as_str();
            let name = labels[1].value.as_str();
            let ghost k0 = (kind@, Some(name@));
            let (at, there) = place(&rows, kind, Some(name));
            proof {
                assert(views[0] == labels@[0]@ && views[1] == labels@[1]@);
                assert(pin_key(*s) == k0);
                lemma_deletions_at_most_all(v.take(i as int), held_only, k0);
                if there {
                    assert(f(key_of(rows@[at as int])) == Some(rows@[at as int].value@));
                } else if f(k0) is Some {
                    assert(has_key(rows@, k0));
                }
            }
            let before: i64 = if there {
                rows[at].value
            } else {
                0
            };
            put(&mut rows, kind, Some(name), before + 1, Ghost(f), Ghost(g));
        } else {
            assert(forall|k: Key| #[trigger] g(k) == f(k));
        }
        i = i + 1;
    }
    assert(v.take(v.len() as int) =~= v);
    let mut out: Vec<RepoDeletions> = Vec::new();
    let mut n: usize = 0;
    while n < rows.len()
        invariant
            n <= rows@.len(),
            out@.len() == n,
            tabulates(rows@, |k: Key| some_deletions_for(v, held_only, k)),
            forall|j: int|
                0 <= j < n ==> key_of(deletion_row(#[trigger] out@[j])) == key_of(rows@[j])
                    && out@[j].count == rows@[j].value,
        decreases rows@.len() - n,
    {
        let row = &rows[n];
        let repo_name = match &row.second {
            Some(p) => p.clone(),
            None => {
                proof {
                    lemma_deletions_have_name(v, held_only, key_of(rows@[n as int]));
                    assert(some_deletions_for(v, held_only, key_of(rows@[n as int])) is Some);
                }
                "".to_owned()
            },
        };
        out.push(RepoDeletions { repo_kind: row.first.clone(), repo_name, count: row.value });
        n = n + 1;
    }
    proof {
        lemma_same_table(
            rows@,
            deletion_table(out@),
            |k: Key| some_deletions_for(v, held_only, k),
        );
    }
    out
}

/// A deletion that is held back is one that is pending: of no repository are more
/// held back than pending.
pub proof fn lemma_held_is_pending(v: Seq<Snapshot>, k: Key)
    ensures
        deletions_for(v, true, k) <= deletions_for(v, false, k),
    decreases v.len(),
{
    if v.len() == 0 {
        assert(v =~= seq![]);
        lemma_none_of_none(true, k);
        lemma_none_of_none(false, k);
    } else {
        lemma_deletions_step(v, true, k);
        lemma_deletions_step(v, false, k);
        lemma_held_is_pending(v.drop_last(), k);
    }
}

/// A repository has a count exactly while some Snapshot that is pinned to it is
/// counted: when the last of them is gone, so is the count.
pub proof fn lemma_counted_while_any(v: Seq<Snapshot>, held_only: bool, k: Key)
    ensures
        some_deletions_for(v, held_only, k) is Some <==> exists|i: int|
            0 <= i < v.len() && deletion_counted(#[trigger] v[i], held_only) && pin_key(v[i]) == k,
    decreases v.len(),
{
    if v.len() == 0 {
        assert(v =~= seq![]);
        lemma_none_of_none(held_only, k);
    } else {
        let rest = v.drop_last();
        let n = v.len() - 1;
        lemma_deletions_step(v, held_only, k);
        lemma_counted_while_any(rest, held_only, k);
        if deletions_for(rest, held_only, k) > 0 {
            let i = choose|i: int|
                0 <= i < rest.len() && deletion_counted(#[trigger] rest[i], held_only) && pin_key(
                    rest[i],
                ) == k;
            assert(v[i] == rest[i]);
        }
        if exists|i: int|
            0 <= i < v.len() && deletion_counted(#[trigger] v[i], held_only) && pin_key(v[i]) == k {
            let i = choose|i: int|
                0 <= i < v.len() && deletion_counted(#[trigger] v[i], held_only) && pin_key(v[i])
                    == k;
            if i < n {
                assert(rest[i] == v[i]);
            }
        }
    }
}

/// Each Snapshot whose deletion is pending counts once, for the kind and the name of the
/// repository that it is pinned to, and for the bucket of the unknown where it is pinned to
/// none. Held ones count among the held too, and only they.
pub proof fn lemma_each_deletion_counts(v: Seq<Snapshot>, s: Snapshot, held_only: bool, k: Key)
    ensures
        deletions_for(Seq::empty(), held_only, k) == 0,
        deletions_for(v.push(s), held_only, k) == deletions_for(v, held_only, k) + (if deletion_pending(
            s,
        ) && (!held_only || held(s)) && pin_key(s) == k {
            1int
        } else {
            0int
        }),
        pin_of(s) is None ==> pin_key(s) == ("unknown"@, Some("unknown"@)),
        pin_of(s) matches Some(r) ==> pin_key(s) == (
            match r.kind {
                RepositoryKind::Repository => "Repository"@,
                RepositoryKind::ClusterRepository => "ClusterRepository"@,
            },
            Some(r.name),
        ),
{
    lemma_none_of_none(held_only, k);
    lemma_deletions_step(v.push(s), held_only, k);
    assert(v.push(s).drop_last() =~= v);
}

/// The rows of the deletions: each tells how many there are for its own repository, and no
/// repository with any is missing.
pub proof fn lemma_rows_of_deletions(
    rows: Seq<RepoDeletions>,
    v: Seq<Snapshot>,
    held_only: bool,
    k: Key,
)
    requires
        deletion_rows(rows, v, held_only),
        v.len() <= i64::MAX,
    ensures
        forall|i: int|
            0 <= i < rows.len() ==> deletions_for(
                v,
                held_only,
                (#[trigger] rows[i].repo_kind@, Some(rows[i].repo_name@)),
            ) == rows[i].count && rows[i].count > 0,
        deletions_for(v, held_only, k) > 0 ==> exists|i: int|
            0 <= i < rows.len() && #[trigger] rows[i].repo_kind@ == k.0 && Some(rows[i].repo_name@)
                == k.1,
{
    let table = deletion_table(rows);
    let f = |k: Key| some_deletions_for(v, held_only, k);
    assert forall|i: int| 0 <= i < rows.len() implies deletions_for(
        v,
        held_only,
        (#[trigger] rows[i].repo_kind@, Some(rows[i].repo_name@)),
    ) == rows[i].count && rows[i].count > 0 by {
        assert(f(key_of(table[i])) == Some(table[i].value@));
        lemma_deletions_at_most_all(v, held_only, key_of(table[i]));
    }
    if deletions_for(v, held_only, k) > 0 {
        assert(f(k) is Some);
        assert(has_key(table, k));
        let i = choose|i: int| 0 <= i < table.len() && #[trigger] key_of(table[i]) == k;
        assert(rows[i].repo_kind@ == k.0);
    }
}

} // verus!
