//! Status patches: whether a merge patch would change anything, and whether a
//! terminal failure still stands.
use vstd::prelude::*;

use crate::text::{opt_str, same, same_opt};

verus! {

/// The field manager of everything that the controller applies.
pub const FIELD_MANAGER: &'static str = "kopiur.home-operations.com/controller";

/// A JSON number.
#[derive(Debug, Clone, Copy, PartialEq, Eq, Structural)]
pub enum JsonNumber {
    /// An integer that is not negative.
    PosInt(u64),
    /// A negative integer.
    NegInt(i64),
    /// Any other number, by the bits of its double, zero always being positive.
    Float(u64),
}

/// A JSON value. Where an object has a key twice, the later entry counts.
#[derive(Debug, PartialEq, Eq)]
pub enum Json {
    /// `null`.
    Null,
    /// `true` or `false`.
    Bool(bool),
    /// A number.
    Number(JsonNumber),
    /// A string.
    Text(String),
    /// An array.
    Array(Vec<Json>),
    /// An object.
    Object(Vec<(String, Json)>),
}

/// What a JSON value is: arrays have an order, objects do not.
pub enum Tree {
    /// `null`.
    Null,
    /// `true` or `false`.
    Bool(bool),
    /// A number.
    Number(JsonNumber),
    /// A string.
    Text(Seq<char>),
    /// An array.
    Array(Seq<Tree>),
    /// An object.
    Object(Map<Seq<char>, Tree>),
}

/// What a JSON value is.
pub open spec fn tree(j: Json) -> Tree
    decreases j,
{
    match j {
        Json::Null => Tree::Null,
        Json::Bool(b) => Tree::Bool(b),
        Json::Number(n) => Tree::Number(n),
        Json::Text(s) => Tree::Text(s@),
        Json::Array(v) => Tree::Array(array_trees(v@)),
        Json::Object(v) => Tree::Object(object_trees(v@)),
    }
}

/// What the elements of an array are.
pub open spec fn array_trees(v: Seq<Json>) -> Seq<Tree>
    decreases v,
{
    if v.len() == 0 {
        Seq::empty()
    } else {
        array_trees(v.drop_last()).push(tree(v.last()))
    }
}

/// What the entries of an object are, later ones over earlier ones.
pub open spec fn object_trees(v: Seq<(String, Json)>) -> Map<Seq<char>, Tree>
    decreases v,
{
    if v.len() == 0 {
        Map::empty()
    } else {
        object_trees(v.drop_last()).insert(v.last().0@, tree(v.last().1))
    }
}

/// What an object holds under a key.
pub open spec fn member(m: Map<Seq<char>, Tree>, key: Seq<char>) -> Option<Tree> {
    if m.dom().contains(key) {
        Some(m[key])
    } else {
        None
    }
}

/// The entries of an object; none of anything else.
pub open spec fn members(t: Tree) -> Map<Seq<char>, Tree> {
    match t {
        Tree::Object(m) => m,
        _ => Map::empty(),
    }
}

/// The merge of a patch into a target (RFC 7386): a `null` removes its key, two
/// objects merge key by key, and anything else replaces.
pub open spec fn merged(target: Tree, patch: Tree) -> Tree
    decreases patch,
{
    match patch {
        Tree::Object(p) => {
            let t = members(target);
            Tree::Object(
                Map::new(
                    |k: Seq<char>|
                        if p.dom().contains(k) {
                            p[k] !is Null
                        } else {
                            t.dom().contains(k)
                        },
                    |k: Seq<char>|
                        if p.dom().contains(k) {
                            merged(
                                if t.dom().contains(k) {
                                    t[k]
                                } else {
                                    Tree::Null
                                },
                                p[k],
                            )
                        } else {
                            t[k]
                        },
                ),
            )
        },
        _ => patch,
    }
}

/// Whether every entry of `d` stands in `c` as it is.
pub open spec fn holds_all(c: Map<Seq<char>, Tree>, d: Map<Seq<char>, Tree>) -> bool {
    forall|k: Seq<char>| #[trigger] d.dom().contains(k) ==> c.dom().contains(k) && c[k] == d[k]
}

/// Whether every entry of the patch stands in the current value as it is.
pub open spec fn shallow_noop(current: Option<Tree>, desired: Tree) -> bool {
    match (current, desired) {
        (Some(Tree::Object(c)), Tree::Object(d)) => holds_all(c, d),
        _ => false,
    }
}

/// Whether merging the patch into the current value leaves it as it is.
pub open spec fn deep_noop(current: Option<Tree>, desired: Tree) -> bool {
    match current {
        Some(c) => merged(c, desired) == c,
        None => false,
    }
}

/// Whether a patch is an object whose values are whole: no objects, no `null`.
pub open spec fn flat(t: Tree) -> bool {
    t matches Tree::Object(d) && forall|k: Seq<char>|
        #[trigger] d.dom().contains(k) ==> d[k] !is Object && d[k] !is Null
}

/// What an optional value is.
pub open spec fn opt_tree(o: Option<&Json>) -> Option<Tree> {
    match o {
        Some(j) => Some(tree(*j)),
        None => None,
    }
}

/// The phase of a repository.
#[derive(Debug, Clone, PartialEq, Eq)]
pub enum RepositoryPhase {
    /// Not looked at yet.
    Pending,
    /// Being set up.
    Initializing,
    /// Usable.
    Ready,
    /// Failed in a way that is retried.
    Degraded,
    /// Failed until an input changes.
    Failed,
    /// A phase that this build does not know.
    Unknown(String),
}

/// Whether the phase is a hard stop for the generation that is now wanted.
pub open spec fn stopped(
    phase: Option<&RepositoryPhase>,
    observed_generation: Option<i64>,
    generation: Option<i64>,
) -> bool {
    &&& generation is Some
    &&& phase matches Some(p) && p is Failed
    &&& observed_generation == generation
}

proof fn lemma_array_trees(v: Seq<Json>)
    ensures
        array_trees(v).len() == v.len(),
        forall|i: int| 0 <= i < v.len() ==> #[trigger] array_trees(v)[i] == tree(v[i]),
    decreases v.len(),
{
    if v.len() > 0 {
        lemma_array_trees(v.drop_last());
    }
}

/// An entry with no later one under its key is what the object holds there.
proof fn lemma_last_entry(v: Seq<(String, Json)>, i: int)
    requires
        0 <= i < v.len(),
        forall|j: int| i < j < v.len() ==> (#[trigger] v[j]).0@ != v[i].0@,
    ensures
        member(object_trees(v), v[i].0@) == Some(tree(v[i].1)),
    decreases v.len(),
{
    if i < v.len() - 1 {
        lemma_last_entry(v.drop_last(), i);
    }
}

proof fn lemma_no_entry(v: Seq<(String, Json)>, key: Seq<char>)
    requires
        forall|j: int| 0 <= j < v.len() ==> (#[trigger] v[j]).0@ != key,
    ensures
        !object_trees(v).dom().contains(key),
    decreases v.len(),
{
    if v.len() > 0 {
        assert forall|j: int| 0 <= j < v.drop_last().len() implies (#[trigger] v.drop_last()[j]).0@
            != key by {
            assert(v[j].0@ != key);
        }
        assert(v[v.len() - 1].0@ != key);
        lemma_no_entry(v.drop_last(), key);
    }
}

/// The entry that counts under a key is one of the entries.
proof fn lemma_some_entry(v: Seq<(String, Json)>, key: Seq<char>) -> (i: int)
    requires
        object_trees(v).dom().contains(key),
    ensures
        0 <= i < v.len(),
        v[i].0@ == key,
        forall|j: int| i < j < v.len() ==> (#[trigger] v[j]).0@ != key,
    decreases v.len(),
{
    if v.last().0@ == key {
        v.len() - 1
    } else {
        let i = lemma_some_entry(v.drop_last(), key);
        assert forall|j: int| i < j < v.len() implies (#[trigger] v[j]).0@ != key by {
            if j < v.len() - 1 {
                assert(v.drop_last()[j].0@ != key);
            }
        }
        i
    }
}

/// Whether no later entry has the key of entry `i`.
fn counts(v: &Vec<(String, Json)>, i: usize) -> (r: bool)
    requires
        i < v@.len(),
    ensures
        r == forall|j: int| i < j < v@.len() ==> (#[trigger] v@[j]).0@ != v@[i as int].0@,
{
    let n: usize = v.len();
    let mut j: usize = i + 1;
    while j < n
        invariant
            n == v@.len(),
            i < j <= n,
            forall|k: int| i < k < j ==> (#[trigger] v@[k]).0@ != v@[i as int].0@,
        decreases n - j,
    {
        if same(v[j].0.as_str(), v[i].0.as_str()) {
            assert(v@[j as int].0@ == v@[i as int].0@);
            return false;
        }
        j += 1;
    }
    true
}

/// What an object holds under a key.
fn find<'a>(v: &'a Vec<(String, Json)>, key: &str) -> (r: Option<&'a Json>)
    ensures
        opt_tree(r) == member(object_trees(v@), key@),
{
    let mut i: usize = v.len();
    while i > 0
        invariant
            i <= v@.len(),
            forall|j: int| i <= j < v@.len() ==> (#[trigger] v@[j]).0@ != key@,
        decreases i,
    {
        i -= 1;
        if same(v[i].0.as_str(), key) {
            proof {
                lemma_last_entry(v@, i as int);
            }
            return Some(&v[i].1);
        }
    }
    proof {
        lemma_no_entry(v@, key@);
    }
    None
}

impl Json {
    /// A copy of the value.
    pub fn copy(&self) -> (r: Json)
        ensures
            tree(r) == tree(*self),
        decreases self,
    {
        match self {
            Json::Null => Json::Null,
            Json::Bool(b) => Json::Bool(*b),
            Json::Number(n) => Json::Number(*n),
            Json::Text(s) => Json::Text(s.clone()),
            Json::Array(v) => {
                let mut out: Vec<Json> = Vec::new();
                let mut i: usize = 0;
                assert(v@.take(0) =~= Seq::empty());
                while i < v.len()
                    invariant
                        i <= v@.len(),
                        *self == Json::Array(*v),
                        array_trees(out@) == array_trees(v@.take(i as int)),
                    decreases v@.len() - i,
                {
                    assert(v@.take(i + 1).drop_last() =~= v@.take(i as int));
                    let ghost was = out@;
                    assert(decreases_to!(*self => (*self)->Array_0));
                    assert(decreases_to!(*v => v@[i as int]));
                    out.push(v[i].copy());
                    assert(out@.drop_last() =~= was);
                    i += 1;
                }
                assert(v@.take(i as int) =~= v@);
                Json::Array(out)
            },
            Json::Object(v) => {
                let mut out: Vec<(String, Json)> = Vec::new();
                let mut i: usize = 0;
                assert(v@.take(0) =~= Seq::empty());
                while i < v.len()
                    invariant
                        i <= v@.len(),
                        *self == Json::Object(*v),
                        object_trees(out@) == object_trees(v@.take(i as int)),
                    decreases v@.len() - i,
                {
                    assert(v@.take(i + 1).drop_last() =~= v@.take(i as int));
                    let ghost was = out@;
                    assert(decreases_to!(*self => (*self)->Object_0));
                    assert(decreases_to!(*v => v@[i as int]));
                    out.push((v[i].0.clone(), v[i].1.copy()));
                    assert(out@.drop_last() =~= was);
                    i += 1;
                }
                assert(v@.take(i as int) =~= v@);
                Json::Object(out)
            },
        }
    }

    /// Whether two values are the same.
    pub fn equals(&self, other: &Json) -> (r: bool)
        ensures
            r == (tree(*self) == tree(*other)),
        decreases self,
    {
        match (self, other) {
            (Json::Null, Json::Null) => true,
            (Json::Bool(a), Json::Bool(b)) => *a == *b,
            (Json::Number(a), Json::Number(b)) => *a == *b,
            (Json::Text(a), Json::Text(b)) => same(a.as_str(), b.as_str()),
            (Json::Array(a), Json::Array(b)) => {
                proof {
                    lemma_array_trees(a@);
                    lemma_array_trees(b@);
                }
                if a.len() != b.len() {
                    return false;
                }
                let mut i: usize = 0;
                while i < a.len()
                    invariant
                        i <= a@.len(),
                        a@.len() == b@.len(),
                        *self == Json::Array(*a),
                        *other == Json::Array(*b),
                        array_trees(a@).len() == a@.len(),
                        array_trees(b@).len() == b@.len(),
                        forall|j: int|
                            0 <= j < a@.len() ==> #[trigger] array_trees(a@)[j] == tree(a@[j]),
                        forall|j: int|
                            0 <= j < b@.len() ==> #[trigger] array_trees(b@)[j] == tree(b@[j]),
                        forall|j: int| 0 <= j < i ==> tree(#[trigger] a@[j]) == tree(b@[j]),
                    decreases a@.len() - i,
                {
                    assert(decreases_to!(*self => *a));
                    assert(decreases_to!(*a => a@[i as int]));
                    if !a[i].equals(&b[i]) {
                        assert(array_trees(a@)[i as int] != array_trees(b@)[i as int]);
                        return false;
                    }
                    i += 1;
                }
                assert(array_trees(a@) =~= array_trees(b@));
                true
            },
            (Json::Object(a), Json::Object(b)) => {
                let ghost x = object_trees(a@);
                let ghost y = object_trees(b@);
                let mut i: usize = 0;
                while i < a.len()
                    invariant
                        i <= a@.len(),
                        *self == Json::Object(*a),
                        *other == Json::Object(*b),
                        x == object_trees(a@),
                        y == object_trees(b@),
                        forall|j: int|
                            0 <= j < i && (forall|k: int|
                                j < k < a@.len() ==> (#[trigger] a@[k]).0@ != a@[j].0@) ==> member(
                                y,
                                (#[trigger] a@[j]).0@,
                            ) == Some(tree(a@[j].1)),
                    decreases a@.len() - i,
                {
                    assert(decreases_to!(*self => *a));
                    assert(decreases_to!(*a => a@[i as int]));
                    if counts(a, i) {
                        proof {
                            lemma_last_entry(a@, i as int);
                        }
                        match find(b, a[i].0.as_str()) {
                            None => {
                                return false;
                            },
                            Some(v) => {
                                if !a[i].1.equals(v) {
                                    return false;
                                }
                            },
                        }
                    }
                    i += 1;
                }
                let mut n: usize = 0;
                while n < b.len()
                    invariant
                        n <= b@.len(),
                        *self == Json::Object(*a),
                        *other == Json::Object(*b),
                        x == object_trees(a@),
                        y == object_trees(b@),
                        forall|j: int| 0 <= j < n ==> x.dom().contains((#[trigger] b@[j]).0@),
                    decreases b@.len() - n,
                {
                    if find(a, b[n].0.as_str()).is_none() {
                        proof {
                            assert(!x.dom().contains(b@[n as int].0@));
                            if !y.dom().contains(b@[n as int].0@) {
                                lemma_entry_is_held(b@, n as int);
                            }
                        }
                        return false;
                    }
                    n += 1;
                }
                proof {
                    assert forall|k: Seq<char>| #[trigger] x.dom().contains(k) implies y.dom().contains(k)
                        && x[k] == y[k] by {
                        let j = lemma_some_entry(a@, k);
                        lemma_last_entry(a@, j);
                        assert(member(y, a@[j].0@) == Some(tree(a@[j].1)));
                    }
                    assert forall|k: Seq<char>| #[trigger] y.dom().contains(k) implies x.dom().contains(k) by {
                        let j = lemma_some_entry(b@, k);
                        assert(x.dom().contains(b@[j].0@));
                    }
                    assert(x.dom() =~= y.dom());
                    assert(x =~= y);
                }
                true
            },
            _ => false,
        }
    }
}

/// What a value holds under a key; nothing where it is no object.
pub open spec fn child(t: Tree, key: Seq<char>) -> Option<Tree> {
    member(members(t), key)
}

/// What an optional value holds under a key.
pub open spec fn child_of(t: Option<Tree>, key: Seq<char>) -> Option<Tree> {
    match t {
        Some(v) => child(v, key),
        None => None,
    }
}

/// The string that an optional value is.
pub open spec fn text_of(t: Option<Tree>) -> Option<Seq<char>> {
    match t {
        Some(Tree::Text(s)) => Some(s),
        _ => None,
    }
}

/// Whether an optional value is `true`.
pub open spec fn is_true(t: Option<Tree>) -> bool {
    t == Some(Tree::Bool(true))
}

/// The integer that an optional value is, where 64 bits hold it.
pub open spec fn integer_in(t: Option<Tree>) -> Option<int> {
    match t {
        Some(Tree::Number(JsonNumber::PosInt(n))) => if n <= i64::MAX {
            Some(n as int)
        } else {
            None
        },
        Some(Tree::Number(JsonNumber::NegInt(n))) => Some(n as int),
        _ => None,
    }
}

/// What an optional value holds under a key.
pub fn get<'a>(v: Option<&'a Json>, key: &str) -> (r: Option<&'a Json>)
    ensures
        opt_tree(r) == child_of(opt_tree(v), key@),
{
    match v {
        Some(Json::Object(entries)) => find(entries, key),
        _ => None,
    }
}

/// The string that an optional value is.
pub fn get_text<'a>(v: Option<&'a Json>) -> (r: Option<&'a String>)
    ensures
        text_of(opt_tree(v)) == match r {
            Some(s) => Some(s@),
            None => None,
        },
{
    match v {
        Some(Json::Text(s)) => Some(s),
        _ => None,
    }
}

/// Whether an optional value is `true`.
pub fn get_true(v: Option<&Json>) -> (r: bool)
    ensures
        r == is_true(opt_tree(v)),
{
    match v {
        Some(Json::Bool(b)) => *b,
        _ => false,
    }
}

/// The integer that an optional value is, where 64 bits hold it.
pub fn get_integer(v: Option<&Json>) -> (r: Option<i64>)
    ensures
        integer_in(opt_tree(v)) == match r {
            Some(n) => Some(n as int),
            None => None,
        },
{
    match v {
        Some(Json::Number(JsonNumber::PosInt(n))) => if *n <= 0x7fff_ffff_ffff_ffff {
            Some(*n as i64)
        } else {
            None
        },
        Some(Json::Number(JsonNumber::NegInt(n))) => Some(*n),
        _ => None,
    }
}

/// An object with one entry.
pub fn entry(key: &str, value: Json) -> (r: Json)
    ensures
        tree(r) == Tree::Object(Map::<Seq<char>, Tree>::empty().insert(key@, tree(value))),
{
    let mut v: Vec<(String, Json)> = Vec::new();
    let ghost was = v@;
    v.push((key.to_owned(), value));
    assert(v@.drop_last() =~= was);
    assert(object_trees(was) =~= Map::empty());
    assert(object_trees(v@) == object_trees(was).insert(key@, tree(value)));
    Json::Object(v)
}

/// An object with two entries, the second over the first.
pub fn entries(k1: &str, v1: Json, k2: &str, v2: Json) -> (r: Json)
    ensures
        tree(r) == Tree::Object(
            Map::<Seq<char>, Tree>::empty().insert(k1@, tree(v1)).insert(k2@, tree(v2)),
        ),
{
    let mut v: Vec<(String, Json)> = Vec::new();
    let ghost none = v@;
    assert(object_trees(none) =~= Map::empty());
    v.push((k1.to_owned(), v1));
    assert(v@.drop_last() =~= none);
    assert(object_trees(v@) == object_trees(none).insert(k1@, tree(v1)));
    let ghost one = v@;
    v.push((k2.to_owned(), v2));
    assert(v@.drop_last() =~= one);
    assert(object_trees(v@) == object_trees(one).insert(k2@, tree(v2)));
    Json::Object(v)
}

/// Every key of an entry is a key of the object.
proof fn lemma_entry_is_held(v: Seq<(String, Json)>, i: int)
    requires
        0 <= i < v.len(),
    ensures
        object_trees(v).dom().contains(v[i].0@),
    decreases v.len(),
{
    if i < v.len() - 1 {
        lemma_entry_is_held(v.drop_last(), i);
        assert(v.drop_last()[i] == v[i]);
    }
}

/// The entries of an object without those under `key`.
fn without(v: &Vec<(String, Json)>, key: &str) -> (r: Vec<(String, Json)>)
    ensures
        object_trees(r@) == object_trees(v@).remove(key@),
{
    let mut out: Vec<(String, Json)> = Vec::new();
    let mut i: usize = 0;
    assert(v@.take(0) =~= Seq::empty());
    assert(object_trees(out@) =~= Map::empty());
    assert(object_trees(v@.take(0)).remove(key@) =~= Map::empty());
    while i < v.len()
        invariant
            i <= v@.len(),
            object_trees(out@) == object_trees(v@.take(i as int)).remove(key@),
        decreases v@.len() - i,
    {
        assert(v@.take(i + 1).drop_last() =~= v@.take(i as int));
        let ghost before = object_trees(v@.take(i as int));
        if same(v[i].0.as_str(), key) {
            assert(before.insert(key@, tree(v@[i as int].1)).remove(key@) =~= before.remove(key@));
        } else {
            let ghost was = out@;
            out.push((v[i].0.clone(), v[i].1.copy()));
            assert(out@.drop_last() =~= was);
            assert(before.insert(v@[i as int].0@, tree(v@[i as int].1)).remove(key@)
                =~= before.remove(key@).insert(v@[i as int].0@, tree(v@[i as int].1)));
        }
        i += 1;
    }
    assert(v@.take(i as int) =~= v@);
    out
}

/// What the merge of a patch leaves under a key that the patch has.
spec fn merged_member(t: Map<Seq<char>, Tree>, p: Map<Seq<char>, Tree>, k: Seq<char>) -> Option<
    Tree,
> {
    if p[k] is Null {
        None
    } else {
        Some(
            merged(
                if t.dom().contains(k) {
                    t[k]
                } else {
                    Tree::Null
                },
                p[k],
            ),
        )
    }
}

/// Whether one of the first `i` entries is the one that counts under `k`.
spec fn settled(v: Seq<(String, Json)>, i: int, k: Seq<char>) -> bool {
    exists|j: int|
        0 <= j < i && (#[trigger] v[j]).0@ == k && forall|n: int|
            j < n < v.len() ==> (#[trigger] v[n]).0@ != k
}

/// Merges `patch` into `target` (RFC 7386).
pub fn apply_merge_patch(target: &Json, patch: &Json) -> (r: Json)
    ensures
        tree(r) == merged(tree(*target), tree(*patch)),
    decreases patch,
{
    let p = match patch {
        Json::Object(p) => p,
        _ => {
            return patch.copy();
        },
    };
    let start = match target {
        Json::Object(_) => target.copy(),
        _ => Json::Object(Vec::new()),
    };
    let mut out: Vec<(String, Json)> = match start {
        Json::Object(v) => v,
        _ => Vec::new(),
    };
    let ghost t = members(tree(*target));
    let ghost all = object_trees(p@);
    assert(object_trees(out@) =~= t);
    let mut i: usize = 0;
    while i < p.len()
        invariant
            i <= p@.len(),
            *patch == Json::Object(*p),
            all == object_trees(p@),
            forall|k: Seq<char>|
                settled(p@, i as int, k) ==> #[trigger] member(object_trees(out@), k)
                    == merged_member(t, all, k),
            forall|k: Seq<char>|
                !settled(p@, i as int, k) ==> #[trigger] member(object_trees(out@), k) == member(
                    t,
                    k,
                ),
        decreases p@.len() - i,
    {
        let key = &p[i].0;
        let ghost was = object_trees(out@);
        let ghost at = p@[i as int];
        assert(decreases_to!(*patch => (*patch)->Object_0));
        assert(decreases_to!(*p => p@[i as int]));
        if counts(p, i) {
            proof {
                lemma_last_entry(p@, i as int);
                assert(!settled(p@, i as int, at.0@));
                assert(member(was, at.0@) == member(t, at.0@));
                assert(settled(p@, i + 1, at.0@)) by {
                    assert(p@[i as int].0@ == at.0@);
                }
            }
            match &p[i].1 {
                Json::Null => {
                    out = without(&out, key.as_str());
                },
                _ => {
                    let value = match find(&out, key.as_str()) {
                        Some(existing) => apply_merge_patch(existing, &p[i].1),
                        None => apply_merge_patch(&Json::Null, &p[i].1),
                    };
                    let ghost entries = out@;
                    out.push((key.clone(), value));
                    assert(out@.drop_last() =~= entries);
                },
            }
            proof {
                assert forall|k: Seq<char>| settled(p@, i + 1, k) implies #[trigger] member(
                    object_trees(out@),
                    k,
                ) == merged_member(t, all, k) by {
                    if k != at.0@ {
                        assert(settled(p@, i as int, k));
                        assert(member(was, k) == merged_member(t, all, k));
                    }
                }
                assert forall|k: Seq<char>| !settled(p@, i + 1, k) implies #[trigger] member(
                    object_trees(out@),
                    k,
                ) == member(t, k) by {
                    assert(k != at.0@);
                    if settled(p@, i as int, k) {
                        let j = choose|j: int|
                            0 <= j < i && (#[trigger] p@[j]).0@ == k && forall|n: int|
                                j < n < p@.len() ==> (#[trigger] p@[n]).0@ != k;
                        assert(p@[j].0@ == k);
                        assert(settled(p@, i + 1, k));
                    }
                    assert(member(was, k) == member(t, k));
                }
            }
        } else {
            proof {
                assert forall|k: Seq<char>| settled(p@, i + 1, k) == settled(p@, i as int, k) by {
                    if settled(p@, i + 1, k) {
                        let j = choose|j: int|
                            0 <= j < i + 1 && (#[trigger] p@[j]).0@ == k && forall|n: int|
                                j < n < p@.len() ==> (#[trigger] p@[n]).0@ != k;
                        assert(p@[j].0@ == k);
                    }
                    if settled(p@, i as int, k) {
                        let j = choose|j: int|
                            0 <= j < i && (#[trigger] p@[j]).0@ == k && forall|n: int|
                                j < n < p@.len() ==> (#[trigger] p@[n]).0@ != k;
                        assert(p@[j].0@ == k);
                    }
                }
            }
        }
        i += 1;
    }
    proof {
        let result = object_trees(out@);
        let want = members(merged(tree(*target), tree(*patch)));
        assert forall|k: Seq<char>| member(result, k) == member(want, k) by {
            if all.dom().contains(k) {
                let j = lemma_some_entry(p@, k);
                assert(p@[j].0@ == k);
                assert(settled(p@, i as int, k));
                assert(member(result, k) == merged_member(t, all, k));
            } else {
                if settled(p@, i as int, k) {
                    let j = choose|j: int|
                        0 <= j < i && (#[trigger] p@[j]).0@ == k && forall|n: int|
                            j < n < p@.len() ==> (#[trigger] p@[n]).0@ != k;
                    lemma_entry_is_held(p@, j);
                }
                assert(member(result, k) == member(t, k));
            }
        }
        assert forall|k: Seq<char>| result.dom().contains(k) == want.dom().contains(k) by {
            assert(member(result, k) == member(want, k));
        }
        assert forall|k: Seq<char>| result.dom().contains(k) implies result[k] == want[k] by {
            assert(member(result, k) == member(want, k));
        }
        assert(result =~= want);
    }
    Json::Object(out)
}

/// Whether every key of `desired` already holds its value in `current`. Only the
/// keys of `desired` are looked at.
pub fn status_patch_is_noop(current: Option<&Json>, desired: &Json) -> (r: bool)
    ensures
        r == shallow_noop(opt_tree(current), tree(*desired)),
{
    let (c, d) = match (current, desired) {
        (Some(Json::Object(c)), Json::Object(d)) => (c, d),
        _ => {
            return false;
        },
    };
    let ghost x = object_trees(c@);
    let ghost y = object_trees(d@);
    let mut i: usize = 0;
    while i < d.len()
        invariant
            i <= d@.len(),
            x == object_trees(c@),
            y == object_trees(d@),
            opt_tree(current) == Some(Tree::Object(x)),
            tree(*desired) == Tree::Object(y),
            forall|j: int|
                0 <= j < i && (forall|k: int|
                    j < k < d@.len() ==> (#[trigger] d@[k]).0@ != d@[j].0@) ==> member(
                    x,
                    (#[trigger] d@[j]).0@,
                ) == Some(tree(d@[j].1)),
        decreases d@.len() - i,
    {
        if counts(d, i) {
            proof {
                lemma_last_entry(d@, i as int);
            }
            match find(c, d[i].0.as_str()) {
                None => {
                    assert(y.dom().contains(d@[i as int].0@));
                    assert(!x.dom().contains(d@[i as int].0@));
                    assert(!holds_all(x, y));
                    return false;
                },
                Some(v) => {
                    if !v.equals(&d[i].1) {
                        assert(y.dom().contains(d@[i as int].0@));
                        assert(x.dom().contains(d@[i as int].0@));
                        assert(x[d@[i as int].0@] != y[d@[i as int].0@]);
                        assert(!holds_all(x, y));
                        return false;
                    }
                },
            }
        }
        i += 1;
    }
    proof {
        assert forall|k: Seq<char>| #[trigger] y.dom().contains(k) implies x.dom().contains(k)
            && x[k] == y[k] by {
            let j = lemma_some_entry(d@, k);
            lemma_last_entry(d@, j);
            assert(member(x, d@[j].0@) == Some(tree(d@[j].1)));
        }
    }
    true
}

/// Whether merging `desired` into `current` would leave it as it is: what the
/// API server would do with the patch. A status that is absent always changes.
pub fn status_merge_patch_is_noop(current: Option<&Json>, desired: &Json) -> (r: bool)
    ensures
        r == deep_noop(opt_tree(current), tree(*desired)),
{
    match current {
        None => false,
        Some(c) => apply_merge_patch(c, desired).equals(c),
    }
}

/// What a patch is that sets one annotation.
pub open spec fn annotation_tree(key: Seq<char>, value: Seq<char>) -> Tree {
    let none = Map::<Seq<char>, Tree>::empty();
    Tree::Object(
        none.insert(
            "metadata"@,
            Tree::Object(
                none.insert("annotations"@, Tree::Object(none.insert(key, Tree::Text(value)))),
            ),
        ),
    )
}

/// The patch that sets one annotation.
pub fn annotation_patch(key: &str, value: &str) -> (r: Json)
    ensures
        tree(r) == annotation_tree(key@, value@),
{
    entry("metadata", entry("annotations", entry(key, Json::Text(value.to_owned()))))
}

/// The body of a patch that sets the status.
pub fn status_body(status: Json) -> (r: Json)
    ensures
        tree(r) == Tree::Object(Map::<Seq<char>, Tree>::empty().insert("status"@, tree(status))),
{
    entry("status", status)
}

/// The patch that brings a status to what is desired: none where it would leave it
/// as it is.
pub fn plan_status_patch(current: Option<&Json>, desired: Json) -> (r: Option<Json>)
    ensures
        r is None <==> deep_noop(opt_tree(current), tree(desired)),
        r matches Some(body) ==> tree(body) == Tree::Object(
            Map::<Seq<char>, Tree>::empty().insert("status"@, tree(desired)),
        ),
{
    if status_merge_patch_is_noop(current, &desired) {
        None
    } else {
        Some(status_body(desired))
    }
}

/// Whether the status already records a failure that is final for the
/// generation that is now wanted. A phase that this build cannot read is none.
pub fn is_terminal_for_generation(
    phase: Option<&RepositoryPhase>,
    observed_generation: Option<i64>,
    generation: Option<i64>,
) -> (r: bool)
    ensures
        r == stopped(phase, observed_generation, generation),
{
    let hard_stopped = match phase {
        None => false,
        Some(RepositoryPhase::Failed) => true,
        Some(RepositoryPhase::Pending)
        | Some(RepositoryPhase::Initializing)
        | Some(RepositoryPhase::Ready)
        | Some(RepositoryPhase::Degraded) => false,
        Some(RepositoryPhase::Unknown(_)) => false,
    };
    match (generation, observed_generation) {
        (Some(g), Some(o)) => hard_stopped && g == o,
        _ => false,
    }
}

/// Whether a final failure still stands, so that the backend is left alone: for
/// the same generation, with the credential as it was, and with no request to
/// set the repository up again.
pub fn terminal_gate_holds(
    phase: Option<&RepositoryPhase>,
    observed_generation: Option<i64>,
    generation: Option<i64>,
    recorded_version: Option<&str>,
    current_version: &str,
    reinit_requested: bool,
) -> (r: bool)
    ensures
        r == (!reinit_requested && stopped(phase, observed_generation, generation) && opt_str(
            recorded_version,
        ) == Some(current_version@)),
{
    !reinit_requested && is_terminal_for_generation(phase, observed_generation, generation)
        && same_opt(recorded_version, Some(current_version))
}

/// On a flat patch the shallow look and the merge agree.
pub proof fn lemma_shallow_agrees_on_flat(current: Option<Tree>, desired: Tree)
    requires
        flat(desired),
    ensures
        shallow_noop(current, desired) == deep_noop(current, desired),
{
    reveal_with_fuel(merged, 2);
    let d = members(desired);
    match current {
        Some(Tree::Object(c)) => {
            let m = members(merged(Tree::Object(c), desired));
            if shallow_noop(current, desired) {
                assert forall|k: Seq<char>| m.dom().contains(k) == c.dom().contains(k) by {
                    if d.dom().contains(k) {
                        assert(c.dom().contains(k));
                    }
                }
                assert(m =~= c);
            }
            if deep_noop(current, desired) {
                assert(m == c);
                assert forall|k: Seq<char>| #[trigger] d.dom().contains(k) implies c.dom().contains(k) && c[k]
                    == d[k] by {
                    assert(m.dom().contains(k));
                    assert(m[k] == d[k]);
                }
            }
        },
        _ => {},
    }
}

/// A patch that has been applied has nothing more to change: the next pass with
/// the same patch writes nothing.
pub proof fn lemma_applied_patch_is_noop(current: Tree, desired: Tree)
    ensures
        deep_noop(Some(merged(current, desired)), desired),
    decreases desired,
{
    match desired {
        Tree::Object(p) => {
            let once = merged(current, desired);
            let twice = merged(once, desired);
            let t = members(current);
            let a = members(once);
            let b = members(twice);
            assert forall|k: Seq<char>| a.dom().contains(k) == b.dom().contains(k) by {}
            assert forall|k: Seq<char>| a.dom().contains(k) implies a[k] == b[k] by {
                if p.dom().contains(k) {
                    let from = if t.dom().contains(k) {
                        t[k]
                    } else {
                        Tree::Null
                    };
                    assert(a[k] == merged(from, p[k]));
                    assert(b[k] == merged(a[k], p[k]));
                    lemma_applied_patch_is_noop(from, p[k]);
                }
            }
            assert(a =~= b);
        },
        _ => {},
    }
}

/// A patch leaves every key alone that it does not have.
pub proof fn lemma_patch_keeps_other_keys(
    current: Map<Seq<char>, Tree>,
    desired: Map<Seq<char>, Tree>,
    key: Seq<char>,
)
    requires
        !desired.dom().contains(key),
    ensures
        member(members(merged(Tree::Object(current), Tree::Object(desired))), key) == member(
            current,
            key,
        ),
{
}

/// What an object holds under a key is what was last entered there. Anything that is no
/// object holds nothing.
pub proof fn lemma_lookups(v: Seq<(String, Json)>, new: (String, Json), key: Seq<char>)
    ensures
        child(Tree::Object(object_trees(Seq::empty())), key) is None,
        child(Tree::Object(object_trees(v.push(new))), new.0@) == Some(tree(new.1)),
        key != new.0@ ==> child(Tree::Object(object_trees(v.push(new))), key) == child(
            Tree::Object(object_trees(v)),
            key,
        ),
        child(Tree::Null, key) is None,
        forall|b: bool| (#[trigger] child(Tree::Bool(b), key)) is None,
        forall|n: JsonNumber| (#[trigger] child(Tree::Number(n), key)) is None,
        forall|s: Seq<char>| (#[trigger] child(Tree::Text(s), key)) is None,
        forall|a: Seq<Tree>| (#[trigger] child(Tree::Array(a), key)) is None,
        child_of(None, key) is None,
        forall|t: Tree| #[trigger] child_of(Some(t), key) == child(t, key),
{
    assert(v.push(new).drop_last() =~= v);
    assert(Seq::<(String, Json)>::empty().len() == 0);
}

/// What is read as a string, a truth or an integer is one; a number beyond 64 bits with a
/// sign is read as none.
pub proof fn lemma_readings(t: Tree)
    ensures
        text_of(Some(t)) is Some <==> t is Text,
        t matches Tree::Text(s) ==> text_of(Some(t)) == Some(s),
        is_true(Some(t)) <==> (t matches Tree::Bool(b) && b),
        text_of(None) is None,
        !is_true(None),
        integer_in(None) is None,
        integer_in(Some(t)) is Some ==> t is Number,
        forall|n: u64|
            #[trigger] integer_in(Some(Tree::Number(JsonNumber::PosInt(n)))) == (if n
                <= 0x7fff_ffff_ffff_ffff {
                Some(n as int)
            } else {
                None
            }),
        forall|n: i64|
            #[trigger] integer_in(Some(Tree::Number(JsonNumber::NegInt(n)))) == Some(n as int),
{
}

/// The three rules of a merge, key by key: a key that the patch does not name stays, a
/// `null` removes its key, an object merges into what is there, and anything else takes
/// its place.
pub proof fn lemma_merge_rules(t: Map<Seq<char>, Tree>, p: Map<Seq<char>, Tree>, k: Seq<char>)
    ensures
        merged(Tree::Object(t), Tree::Object(p)) is Object,
        !p.dom().contains(k) && t.dom().contains(k) ==> child(
            merged(Tree::Object(t), Tree::Object(p)),
            k,
        ) == Some(t[k]),
        !p.dom().contains(k) && !t.dom().contains(k) ==> child(
            merged(Tree::Object(t), Tree::Object(p)),
            k,
        ) is None,
        p.dom().contains(k) && p[k] is Null ==> child(merged(Tree::Object(t), Tree::Object(p)), k) is None,
        p.dom().contains(k) && p[k] !is Null && p[k] !is Object ==> child(
            merged(Tree::Object(t), Tree::Object(p)),
            k,
        ) == Some(p[k]),
        p.dom().contains(k) && p[k] is Object && t.dom().contains(k) ==> child(
            merged(Tree::Object(t), Tree::Object(p)),
            k,
        ) == Some(merged(t[k], p[k])),
        p.dom().contains(k) && p[k] is Object && !t.dom().contains(k) ==> child(
            merged(Tree::Object(t), Tree::Object(p)),
            k,
        ) == Some(merged(Tree::Object(Map::empty()), p[k])),
{
    if p.dom().contains(k) {
        let at = if t.dom().contains(k) {
            t[k]
        } else {
            Tree::Null
        };
        lemma_merge_replaces(at, p[k]);
    }
}

/// What is no object is replaced by a patch, and replaces what it patches.
pub proof fn lemma_merge_replaces(t: Tree, p: Tree)
    ensures
        p !is Object ==> merged(t, p) == p,
        p is Object && t !is Object ==> merged(t, p) == merged(Tree::Object(Map::empty()), p),
{
    if p is Object && t !is Object {
        assert(members(t) == members(Tree::Object(Map::<Seq<char>, Tree>::empty())));
    }
}

/// A patch is sent where there is nothing yet, and where any of its keys is missing or
/// holds another value.
pub proof fn lemma_what_has_to_be_sent(
    c: Map<Seq<char>, Tree>,
    d: Map<Seq<char>, Tree>,
    k: Seq<char>,
)
    ensures
        !shallow_noop(None, Tree::Object(d)),
        !deep_noop(None, Tree::Object(d)),
        d.dom().contains(k) && !(c.dom().contains(k) && c[k] == d[k]) ==> !shallow_noop(
            Some(Tree::Object(c)),
            Tree::Object(d),
        ),
        d.dom().contains(k) && d[k] !is Null && d[k] !is Object && !(c.dom().contains(k) && c[k]
            == d[k]) ==> !deep_noop(Some(Tree::Object(c)), Tree::Object(d)),
        d.dom().contains(k) && d[k] is Null && c.dom().contains(k) ==> !deep_noop(
            Some(Tree::Object(c)),
            Tree::Object(d),
        ),
        (forall|i: Seq<char>| #[trigger]
            d.dom().contains(i) ==> c.dom().contains(i) && c[i] == d[i]) ==> shallow_noop(
            Some(Tree::Object(c)),
            Tree::Object(d),
        ),
{
    lemma_merge_rules(c, d, k);
    if deep_noop(Some(Tree::Object(c)), Tree::Object(d)) {
        assert(child(Tree::Object(c), k) == child(merged(Tree::Object(c), Tree::Object(d)), k));
    }
}

/// A repository is parked only by a final failure of the very generation that is wanted: a
/// retryable failure, an unknown phase and another generation each let it be tried.
pub proof fn lemma_what_parks_a_repository(
    phase: RepositoryPhase,
    observed: Option<i64>,
    generation: Option<i64>,
)
    ensures
        !stopped(None, observed, generation),
        !stopped(Some(&phase), observed, None),
        observed != generation ==> !stopped(Some(&phase), observed, generation),
        !(phase is Failed) ==> !stopped(Some(&phase), observed, generation),
        phase is Failed && generation is Some ==> stopped(Some(&phase), generation, generation),
        phase is Degraded || phase is Pending || phase is Initializing || phase is Ready
            || phase is Unknown ==> !stopped(Some(&phase), observed, generation),
{
}

/// An annotation's patch names the annotation and nothing else.
pub proof fn lemma_annotation_patches(key: Seq<char>, value: Seq<char>, other: Seq<char>)
    ensures
        child_of(child_of(child(annotation_tree(key, value), "metadata"@), "annotations"@), key)
            == Some(Tree::Text(value)),
        other != key ==> child_of(
            child_of(child(annotation_tree(key, value), "metadata"@), "annotations"@),
            other,
        ) is None,
        other != "metadata"@ ==> child(annotation_tree(key, value), other) is None,
        other != "annotations"@ ==> child_of(
            child(annotation_tree(key, value), "metadata"@),
            other,
        ) is None,
{
}

} // verus!
