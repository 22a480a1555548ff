//! Status conditions.
use vstd::prelude::*;

use crate::text::same;

verus! {

/// A status condition.
#[derive(Debug, Clone, PartialEq, Eq)]
pub struct Condition {
    /// Its type.
    pub type_: String,
    /// `True`, `False` or `Unknown`.
    pub status: String,
    /// Why the status is what it is, in one word.
    pub reason: String,
    /// Why the status is what it is, for people.
    pub message: String,
    /// The generation that was looked at.
    pub observed_generation: Option<i64>,
    /// When the status last changed.
    pub last_transition_time: String,
}

/// What a condition says.
pub struct ConditionView {
    /// Its type.
    pub type_: Seq<char>,
    /// `True`, `False` or `Unknown`.
    pub status: Seq<char>,
    /// Why the status is what it is, in one word.
    pub reason: Seq<char>,
    /// Why the status is what it is, for people.
    pub message: Seq<char>,
    /// The generation that was looked at.
    pub observed_generation: Option<i64>,
    /// When the status last changed.
    pub last_transition_time: Seq<char>,
}

impl View for Condition {
    type V = ConditionView;

    open spec fn view(&self) -> ConditionView {
        ConditionView {
            type_: self.type_@,
            status: self.status@,
            reason: self.reason@,
            message: self.message@,
            observed_generation: self.observed_generation,
            last_transition_time: self.last_transition_time@,
        }
    }
}

/// What a list of conditions says.
pub open spec fn condition_views(v: Seq<Condition>) -> Seq<ConditionView> {
    v.map_values(|c: Condition| c@)
}

/// The status text of a condition that holds or does not.
pub open spec fn status_text(holds: bool) -> Seq<char> {
    if holds {
        "True"@
    } else {
        "False"@
    }
}

/// Where the first condition of a type stands; behind the end where there is none.
pub open spec fn place_of(v: Seq<ConditionView>, type_: Seq<char>) -> int
    decreases v.len(),
{
    if v.len() == 0 {
        0
    } else if v.first().type_ == type_ {
        0
    } else {
        1 + place_of(v.drop_first(), type_)
    }
}

/// The conditions with one entered: in its place where there is one of its type,
/// which keeps its time while the status stays, and at the end otherwise.
pub open spec fn upserted(v: Seq<ConditionView>, new: ConditionView) -> Seq<ConditionView> {
    let at = place_of(v, new.type_);
    if at < v.len() {
        v.update(
            at,
            if v[at].status == new.status {
                ConditionView { last_transition_time: v[at].last_transition_time, ..new }
            } else {
                new
            },
        )
    } else {
        v.push(new)
    }
}

/// The place of a type is that of the first condition of it, or behind all where there is
/// none.
pub proof fn lemma_place_of(v: Seq<ConditionView>, type_: Seq<char>)
    ensures
        0 <= place_of(v, type_) <= v.len(),
        forall|i: int| 0 <= i < place_of(v, type_) ==> (#[trigger] v[i]).type_ != type_,
        place_of(v, type_) < v.len() ==> v[place_of(v, type_)].type_ == type_,
    decreases v.len(),
{
    if v.len() > 0 && v.first().type_ != type_ {
        lemma_place_of(v.drop_first(), type_);
        assert forall|i: int| 0 <= i < place_of(v, type_) implies (#[trigger] v[i]).type_
            != type_ by {
            if i > 0 {
                assert(v.drop_first()[i - 1] == v[i]);
            }
        }
    }
}

proof fn lemma_place_is(v: Seq<ConditionView>, type_: Seq<char>, i: int)
    requires
        0 <= i <= v.len(),
        forall|j: int| 0 <= j < i ==> (#[trigger] v[j]).type_ != type_,
        i < v.len() ==> v[i].type_ == type_,
    ensures
        place_of(v, type_) == i,
{
    lemma_place_of(v, type_);
}

impl Condition {
    /// A copy of the condition.
    pub fn copy(&self) -> (r: Condition)
        ensures
            r@ == self@,
    {
        Condition {
            type_: self.type_.clone(),
            status: self.status.clone(),
            reason: self.reason.clone(),
            message: self.message.clone(),
            observed_generation: self.observed_generation,
            last_transition_time: self.last_transition_time.clone(),
        }
    }

    /// Whether two conditions say the same.
    pub fn equals(&self, other: &Condition) -> (r: bool)
        ensures
            r == (self@ == other@),
    {
        let same_generation = match (self.observed_generation, other.observed_generation) {
            (None, None) => true,
            (Some(a), Some(b)) => a == b,
            _ => false,
        };
        same_generation && same(self.type_.as_str(), other.type_.as_str()) && same(
            self.status.as_str(),
            other.status.as_str(),
        ) && same(self.reason.as_str(), other.reason.as_str()) && same(
            self.message.as_str(),
            other.message.as_str(),
        ) && same(self.last_transition_time.as_str(), other.last_transition_time.as_str())
    }
}

/// Whether two lists of conditions say the same.
pub fn same_conditions(a: &Vec<Condition>, b: &Vec<Condition>) -> (r: bool)
    ensures
        r == (condition_views(a@) == condition_views(b@)),
{
    if a.len() != b.len() {
        assert(condition_views(a@).len() != condition_views(b@).len());
        return false;
    }
    let mut i: usize = 0;
    while i < a.len()
        invariant
            i <= a@.len(),
            a@.len() == b@.len(),
            forall|j: int| 0 <= j < i ==> (#[trigger] a@[j])@ == b@[j]@,
        decreases a@.len() - i,
    {
        if !a[i].equals(&b[i]) {
            assert(condition_views(a@)[i as int] != condition_views(b@)[i as int]);
            return false;
        }
        i += 1;
    }
    assert(condition_views(a@) =~= condition_views(b@));
    true
}

/// The conditions with one entered.
pub fn upsert_condition(
    existing: &Vec<Condition>,
    type_: &str,
    holds: bool,
    reason: &str,
    message: &str,
    observed_generation: Option<i64>,
    now: &str,
) -> (r: Vec<Condition>)
    ensures
        condition_views(r@) == upserted(
            condition_views(existing@),
            (ConditionView {
                type_: type_@,
                status: status_text(holds),
                reason: reason@,
                message: message@,
                observed_generation,
                last_transition_time: now@,
            }),
        ),
{
    let mut new = Condition {
        type_: type_.to_owned(),
        status: if holds {
            "True".to_owned()
        } else {
            "False".to_owned()
        },
        reason: reason.to_owned(),
        message: message.to_owned(),
        observed_generation,
        last_transition_time: now.to_owned(),
    };
    let ghost given = new@;
    let ghost views = condition_views(existing@);
    let mut out: Vec<Condition> = Vec::new();
    let mut i: usize = 0;
    assert(condition_views(out@) =~= views.take(0));
    proof {
        if existing@.len() == 0 {
            lemma_place_is(views, type_@, 0);
        }
    }
    while i < existing.len()
        invariant_except_break
            forall|j: int| 0 <= j < i ==> (#[trigger] views[j]).type_ != type_@,
            i == existing@.len() ==> place_of(views, type_@) == i,
        invariant
            i <= existing@.len(),
            views == condition_views(existing@),
            condition_views(out@) == views.take(i as int),
        ensures
            place_of(views, type_@) == i,
        decreases existing@.len() - i,
    {
        if same(existing[i].type_.as_str(), type_) {
            assert(views[i as int].type_ == type_@);
            proof {
                lemma_place_is(views, type_@, i as int);
            }
            break;
        }
        let ghost was = out@;
        out.push(existing[i].copy());
        assert(views.take(i + 1) =~= views.take(i as int).push(views[i as int]));
        assert(condition_views(out@) =~= condition_views(was).push(views[i as int]));
        i += 1;
        proof {
            if i == existing@.len() {
                lemma_place_is(views, type_@, i as int);
            }
        }
    }
    proof {
        lemma_place_of(views, type_@);
    }
    if i < existing.len() {
        if same(existing[i].status.as_str(), new.status.as_str()) {
            new.last_transition_time = existing[i].last_transition_time.clone();
        }
    }
    let ghost entered = new@;
    let ghost was = out@;
    out.push(new);
    assert(condition_views(out@) =~= condition_views(was).push(entered));
    let mut j: usize = i;
    if i < existing.len() {
        j = i + 1;
        assert(condition_views(out@) =~= upserted(views, given).take(j as int));
        while j < existing.len()
            invariant
                i < j <= existing@.len(),
                views == condition_views(existing@),
                upserted(views, given) == views.update(i as int, entered),
                condition_views(out@) == upserted(views, given).take(j as int),
            decreases existing@.len() - j,
        {
            let ghost sofar = out@;
            out.push(existing[j].copy());
            assert(upserted(views, given).take(j + 1) =~= upserted(views, given).take(
                j as int,
            ).push(views[j as int]));
            assert(condition_views(out@) =~= condition_views(sofar).push(views[j as int]));
            j += 1;
        }
        assert(upserted(views, given).take(j as int) =~= upserted(views, given));
    } else {
        assert(views.take(i as int) =~= views);
    }
    out
}

/// Entering a condition again changes nothing, whatever the time: a steady state
/// has nothing to write.
pub proof fn lemma_upsert_settles(v: Seq<ConditionView>, new: ConditionView, later: Seq<char>)
    ensures
        upserted(upserted(v, new), (ConditionView { last_transition_time: later, ..new }))
            == upserted(v, new),
{
    let once = upserted(v, new);
    let again = ConditionView { last_transition_time: later, ..new };
    lemma_place_of(v, new.type_);
    let at = place_of(v, new.type_);
    lemma_place_is(once, new.type_, at);
    assert(upserted(once, again) =~= once);
}

/// Entering a condition leaves those of other types alone.
pub proof fn lemma_upsert_keeps_others(v: Seq<ConditionView>, new: ConditionView, i: int)
    requires
        0 <= i < v.len(),
        v[i].type_ != new.type_,
    ensures
        upserted(v, new)[i] == v[i],
        upserted(v, new).len() >= v.len(),
{
    lemma_place_of(v, new.type_);
}

/// The words for whether a condition holds.
pub proof fn lemma_status_words()
    ensures
        status_text(true) == "True"@,
        status_text(false) == "False"@,
{
}

/// What entering a condition does: it takes the place of the first of its type, or comes
/// last where there is none. The time of the last transition is kept as long as the status
/// stays, and is the new one where the status turns or the condition is new.
pub proof fn lemma_what_entering_does(v: Seq<ConditionView>, new: ConditionView, at: int)
    ensures
        (0 <= at < v.len() && v[at].type_ == new.type_ && forall|i: int|
            0 <= i < at ==> (#[trigger] v[i]).type_ != new.type_) ==> {
            let r = upserted(v, new);
            &&& r.len() == v.len()
            &&& r[at].type_ == new.type_
            &&& r[at].status == new.status
            &&& r[at].reason == new.reason
            &&& r[at].message == new.message
            &&& r[at].observed_generation == new.observed_generation
            &&& r[at].last_transition_time == if v[at].status == new.status {
                v[at].last_transition_time
            } else {
                new.last_transition_time
            }
            &&& forall|i: int| 0 <= i < v.len() && i != at ==> #[trigger] r[i] == v[i]
        },
        (forall|i: int| 0 <= i < v.len() ==> (#[trigger] v[i]).type_ != new.type_) ==> upserted(v, new)
            == v.push(new),
{
    lemma_place_of(v, new.type_);
    if 0 <= at < v.len() && v[at].type_ == new.type_ && (forall|i: int|
        0 <= i < at ==> (#[trigger] v[i]).type_ != new.type_) {
        lemma_place_is(v, new.type_, at);
    }
    if forall|i: int| 0 <= i < v.len() ==> (#[trigger] v[i]).type_ != new.type_ {
        lemma_place_is(v, new.type_, v.len() as int);
    }
}

/// What conditions say is what each says, in order.
pub proof fn lemma_conditions_say(v: Seq<Condition>, i: int)
    ensures
        condition_views(v).len() == v.len(),
        0 <= i < v.len() ==> {
            let c = condition_views(v)[i];
            &&& c.type_ == v[i].type_@
            &&& c.status == v[i].status@
            &&& c.reason == v[i].reason@
            &&& c.message == v[i].message@
            &&& c.observed_generation == v[i].observed_generation
            &&& c.last_transition_time == v[i].last_transition_time@
        },
{
}

} // verus!
