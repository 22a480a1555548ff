//! Rows that are kept by a text and an optional second one, in the order of strings.
use vstd::prelude::*;

use crate::text::{is_before, lemma_text_order, opt_str, opt_text, same, same_opt, text_before};

verus! {

/// A row.
pub struct Row<V> {
    /// What it is kept by first, such as a namespace.
    pub first: String,
    /// What it is kept by then, such as a policy; a row without it comes before those
    /// with one.
    pub second: Option<String>,
    /// What is kept.
    pub value: V,
}

/// What a row is kept by.
pub type Key = (Seq<char>, Option<Seq<char>>);

/// What a row is kept by.
pub open spec fn key_of<V>(row: Row<V>) -> Key {
    (row.first@, opt_text(row.second))
}

/// The order of optional texts: none comes first.
pub open spec fn opt_before(a: Option<Seq<char>>, b: Option<Seq<char>>) -> bool {
    match (a, b) {
        (None, Some(_)) => true,
        (Some(x), Some(y)) => text_before(x, y),
        _ => false,
    }
}

/// The order of keys: by the first text, then by the second.
pub open spec fn key_before(a: Key, b: Key) -> bool {
    text_before(a.0, b.0) || (a.0 == b.0 && opt_before(a.1, b.1))
}

/// Whether rows are in order, each key once.
pub open spec fn in_order<V>(rows: Seq<Row<V>>) -> bool {
    forall|i: int, j: int|
        0 <= i < j < rows.len() ==> key_before(#[trigger] key_of(rows[i]), #[trigger] key_of(rows[j]))
}

/// Whether some row is kept by a key.
pub open spec fn has_key<V>(rows: Seq<Row<V>>, k: Key) -> bool {
    exists|i: int| 0 <= i < rows.len() && #[trigger] key_of(rows[i]) == k
}

/// Whether rows are what `f` says: in order, one for each key that `f` has
/// something for, with what it has.
pub open spec fn tabulates<V: View>(rows: Seq<Row<V>>, f: spec_fn(Key) -> Option<V::V>) -> bool {
    &&& in_order(rows)
    &&& forall|i: int| 0 <= i < rows.len() ==> f(#[trigger] key_of(rows[i])) == Some(rows[i].value@)
    &&& forall|k: Key| (#[trigger] f(k)) is Some ==> has_key(rows, k)
}

/// Keys are strictly and totally ordered.
pub proof fn lemma_key_order(a: Key, b: Key, c: Key)
    ensures
        !key_before(a, a),
        key_before(a, b) && key_before(b, c) ==> key_before(a, c),
        a == b || key_before(a, b) || key_before(b, a),
        key_before(a, b) ==> !key_before(b, a),
{
    lemma_text_order(a.0, b.0, c.0);
    lemma_text_order(b.0, a.0, c.0);
    match (a.1, b.1, c.1) {
        (Some(x), Some(y), Some(z)) => {
            lemma_text_order(x, y, z);
        },
        (Some(x), Some(y), None) => {
            lemma_text_order(x, y, y);
        },
        (Some(x), _, _) => {
            lemma_text_order(x, x, x);
        },
        _ => {},
    }
}

/// Rows that are in order hold each key once.
pub proof fn lemma_keys_differ<V>(rows: Seq<Row<V>>, i: int, j: int)
    requires
        in_order(rows),
        0 <= i < rows.len(),
        0 <= j < rows.len(),
        key_of(rows[i]) == key_of(rows[j]),
    ensures
        i == j,
{
    let k = key_of(rows[i]);
    lemma_key_order(k, k, k);
    if i < j {
        assert(key_before(key_of(rows[i]), key_of(rows[j])));
    }
    if j < i {
        assert(key_before(key_of(rows[j]), key_of(rows[i])));
    }
}

/// Two tables of the same thing hold the same.
pub proof fn lemma_tables_agree<V: View>(
    a: Seq<Row<V>>,
    b: Seq<Row<V>>,
    f: spec_fn(Key) -> Option<V::V>,
)
    requires
        tabulates(a, f),
        tabulates(b, f),
    ensures
        a.len() == b.len(),
        forall|i: int|
            0 <= i < a.len() ==> #[trigger] key_of(a[i]) == key_of(b[i]) && a[i].value@ == b[i].value@,
    decreases a.len() + b.len(),
{
    if a.len() == 0 && b.len() == 0 {
    } else if a.len() == 0 {
        assert(f(key_of(b[0])) is Some);
        assert(has_key(a, key_of(b[0])));
        assert(false);
    } else if b.len() == 0 {
        assert(f(key_of(a[0])) is Some);
        assert(has_key(b, key_of(a[0])));
        assert(false);
    } else {
        let (x, y) = (a.last(), b.last());
        let (kx, ky) = (key_of(x), key_of(y));
        assert(key_of(a[a.len() - 1]) == kx && key_of(b[b.len() - 1]) == ky);
        assert(has_key(b, kx) && has_key(a, ky));
        let i = choose|i: int| 0 <= i < b.len() && #[trigger] key_of(b[i]) == kx;
        let j = choose|j: int| 0 <= j < a.len() && #[trigger] key_of(a[j]) == ky;
        lemma_key_order(kx, ky, kx);
        lemma_key_order(ky, kx, ky);
        if i < b.len() - 1 {
            assert(key_before(kx, ky));
            if j < a.len() - 1 {
                assert(key_before(ky, kx));
            }
            assert(false);
        }
        assert(kx == ky);
        let g = |k: Key| if k == kx { None } else { f(k) };
        lemma_drops_last(a, f, g);
        lemma_drops_last(b, f, g);
        lemma_tables_agree(a.drop_last(), b.drop_last(), g);
        assert forall|n: int| 0 <= n < a.len() implies #[trigger] key_of(a[n]) == key_of(b[n])
            && a[n].value@ == b[n].value@ by {
            if n < a.len() - 1 {
                assert(key_of(a.drop_last()[n]) == key_of(b.drop_last()[n]));
            } else {
                assert(f(key_of(a[n])) == Some(a[n].value@));
                assert(f(key_of(b[n])) == Some(b[n].value@));
            }
        }
    }
}

proof fn lemma_drops_last<V: View>(
    a: Seq<Row<V>>,
    f: spec_fn(Key) -> Option<V::V>,
    g: spec_fn(Key) -> Option<V::V>,
)
    requires
        tabulates(a, f),
        a.len() > 0,
        forall|k: Key| #[trigger]
            g(k) == if k == key_of(a.last()) {
                None
            } else {
                f(k)
            },
    ensures
        tabulates(a.drop_last(), g),
{
    let rest = a.drop_last();
    let last = key_of(a.last());
    assert forall|i: int, j: int| 0 <= i < j < rest.len() implies key_before(
        #[trigger] key_of(rest[i]),
        #[trigger] key_of(rest[j]),
    ) by {
        assert(key_before(key_of(a[i]), key_of(a[j])));
    }
    assert forall|i: int| 0 <= i < rest.len() implies g(#[trigger] key_of(rest[i])) == Some(
        rest[i].value@,
    ) by {
        assert(f(key_of(a[i])) == Some(a[i].value@));
        if key_of(a[i]) == last {
            lemma_keys_differ(a, i, a.len() - 1);
        }
    }
    assert forall|k: Key| (#[trigger] g(k)) is Some implies has_key(rest, k) by {
        assert(f(k) is Some);
        assert(has_key(a, k));
        let i = choose|i: int| 0 <= i < a.len() && #[trigger] key_of(a[i]) == k;
        assert(i < a.len() - 1);
        assert(key_of(rest[i]) == k);
    }
}

/// Where a key stands in rows that are in order: the place of its row and `true`,
/// or the place where its row would go and `false`.
pub(crate) fn place<V>(rows: &Vec<Row<V>>, first: &str, second: Option<&str>) -> (r: (usize, bool))
    requires
        in_order(rows@),
    ensures
        r.0 <= rows@.len(),
        r.1 ==> r.0 < rows@.len() && key_of(rows@[r.0 as int]) == (first@, opt_str(second)),
        !r.1 ==> {
            &&& !has_key(rows@, (first@, opt_str(second)))
            &&& forall|i: int|
                0 <= i < r.0 ==> key_before(#[trigger] key_of(rows@[i]), (first@, opt_str(second)))
            &&& forall|i: int|
                r.0 <= i < rows@.len() ==> key_before(
                    (first@, opt_str(second)),
                    #[trigger] key_of(rows@[i]),
                )
        },
{
    let ghost k = (first@, opt_str(second));
    let mut i: usize = 0;
    while i < rows.len()
        invariant
            i <= rows@.len(),
            in_order(rows@),
            k == (first@, opt_str(second)),
            forall|n: int| 0 <= n < i ==> key_before(#[trigger] key_of(rows@[n]), k),
        decreases rows@.len() - i,
    {
        let row = &rows[i];
        let own: Option<&str> = match &row.second {
            Some(p) => Some(p.as_str()),
            None => None,
        };
        if same(row.first.as_str(), first) && same_opt(own, second) {
            return (i, true);
        }
        let before = is_before(row.first.as_str(), first) || (same(
            row.first.as_str(),
            first,
        ) && match (own, second) {
            (None, Some(_)) => true,
            (Some(a), Some(b)) => is_before(a, b),
            _ => false,
        });
        proof {
            assert(before == key_before(key_of(rows@[i as int]), k));
            lemma_key_order(key_of(rows@[i as int]), k, k);
        }
        if !before {
            proof {
                assert forall|n: int| i <= n < rows@.len() implies key_before(
                    k,
                    #[trigger] key_of(rows@[n]),
                ) by {
                    if n > i {
                        assert(key_before(key_of(rows@[i as int]), key_of(rows@[n])));
                        lemma_key_order(k, key_of(rows@[i as int]), key_of(rows@[n]));
                    }
                }
                lemma_not_there(rows@, k, i as int);
            }
            return (i, false);
        }
        i = i + 1;
    }
    proof {
        lemma_not_there(rows@, k, i as int);
    }
    (i, false)
}

proof fn lemma_not_there<V>(rows: Seq<Row<V>>, k: Key, at: int)
    requires
        0 <= at <= rows.len(),
        forall|i: int| 0 <= i < at ==> key_before(#[trigger] key_of(rows[i]), k),
        forall|i: int| at <= i < rows.len() ==> key_before(k, #[trigger] key_of(rows[i])),
    ensures
        !has_key(rows, k),
{
    lemma_key_order(k, k, k);
}

/// Puts a row where [`place`] says it goes, or in place of the row that is there.
pub(crate) fn put<V: View>(
    rows: &mut Vec<Row<V>>,
    first: &str,
    second: Option<&str>,
    value: V,
    Ghost(f): Ghost<spec_fn(Key) -> Option<V::V>>,
    Ghost(g): Ghost<spec_fn(Key) -> Option<V::V>>,
)
    requires
        tabulates(old(rows)@, f),
        forall|k: Key| #[trigger]
            g(k) == if k == (first@, opt_str(second)) {
                Some(value@)
            } else {
                f(k)
            },
    ensures
        tabulates(final(rows)@, g),
{
    let ghost k = (first@, opt_str(second));
    let ghost before = rows@;
    let (at, there) = place(rows, first, second);
    if there {
        let _ = rows.remove(at);
    }
    let row = Row {
        first: first.to_owned(),
        second: match second {
            Some(p) => Some(p.to_owned()),
            None => None,
        },
        value,
    };
    rows.insert(at, row);
    proof {
        let after = rows@;
        assert(key_of(after[at as int]) == k);
        let shift: int = if there {
            0
        } else {
            1
        };
        assert(after.len() == before.len() + shift);
        assert forall|i: int| 0 <= i < after.len() && i != at implies after[i] == before[if i < at {
            i
        } else {
            i - shift
        }] by {}
        assert forall|i: int, j: int| 0 <= i < j < after.len() implies key_before(
            #[trigger] key_of(after[i]),
            #[trigger] key_of(after[j]),
        ) by {
            let a = if i < at {
                i
            } else {
                i - shift
            };
            let b = if j < at {
                j
            } else {
                j - shift
            };
            if i != at && j != at {
                assert(key_before(key_of(before[a]), key_of(before[b])));
            } else if there {
                assert(key_before(key_of(before[i]), key_of(before[j])));
            } else if i == at {
                assert(key_before(k, key_of(before[b])));
            } else {
                assert(key_before(key_of(before[a]), k));
            }
        }
        assert forall|i: int| 0 <= i < after.len() implies g(#[trigger] key_of(after[i])) == Some(
            after[i].value@,
        ) by {
            if i != at {
                let a = if i < at {
                    i
                } else {
                    i - shift
                };
                assert(f(key_of(before[a])) == Some(before[a].value@));
                if key_of(after[i]) == k {
                    if there {
                        lemma_keys_differ(before, a, at as int);
                    } else {
                        assert(has_key(before, k));
                    }
                }
            }
        }
        assert forall|q: Key| (#[trigger] g(q)) is Some implies has_key(after, q) by {
            if q == k {
                assert(key_of(after[at as int]) == k);
            } else {
                assert(f(q) is Some);
                assert(has_key(before, q));
                let a = choose|i: int| 0 <= i < before.len() && #[trigger] key_of(before[i]) == q;
                let i = if a < at {
                    a
                } else {
                    a + shift
                };
                assert(key_of(after[i]) == q);
            }
        }
    }
}

/// What a table holds: one row for each key that there is something for, with what there
/// is, and no row for any other; rows are ordered by the first text, then by the second, a
/// missing one first.
pub proof fn lemma_what_a_table_holds<V: View>(
    rows: Seq<Row<V>>,
    f: spec_fn(Key) -> Option<V::V>,
    k: Key,
    i: int,
)
    requires
        tabulates(rows, f),
    ensures
        f(k) is Some <==> exists|j: int|
            0 <= j < rows.len() && (#[trigger] rows[j]).first@ == k.0 && opt_text(rows[j].second) == k.1,
        0 <= i < rows.len() ==> f((rows[i].first@, opt_text(rows[i].second))) == Some(rows[i].value@),
        0 <= i < rows.len() - 1 ==> text_before(rows[i].first@, rows[i + 1].first@) || (
        rows[i].first@ == rows[i + 1].first@ && (match (
            opt_text(rows[i].second),
            opt_text(rows[i + 1].second),
        ) {
            (None, Some(_)) => true,
            (Some(a), Some(b)) => text_before(a, b),
            _ => false,
        })),
{
    if f(k) is Some {
        assert(has_key(rows, k));
        let j = choose|j: int| 0 <= j < rows.len() && #[trigger] key_of(rows[j]) == k;
        assert(rows[j].first@ == k.0);
    }
    if exists|j: int|
        0 <= j < rows.len() && (#[trigger] rows[j]).first@ == k.0 && opt_text(rows[j].second) == k.1 {
        let j = choose|j: int|
            0 <= j < rows.len() && (#[trigger] rows[j]).first@ == k.0 && opt_text(rows[j].second) == k.1;
        assert(f(key_of(rows[j])) == Some(rows[j].value@));
    }
    if 0 <= i < rows.len() {
        assert(f(key_of(rows[i])) == Some(rows[i].value@));
    }
    if 0 <= i < rows.len() - 1 {
        assert(key_before(key_of(rows[i]), key_of(rows[i + 1])));
    }
}

} // verus!
