//! The names of the Jobs that maintain a repository.
use vstd::prelude::*;
use vstd::string::*;
use vstd::utf8::*;

use crate::clock::Moment;
use crate::replication_run::{
    fit_job_name, fitted_job_name, lemma_fitted_ends_in_suffix, lemma_fitted_job_name_fits,
    lemma_seconds_are_short, requested,
};
use crate::text::{lemma_signed_decimal_reads_back, signed_decimal, signed_decimal_text};

verus! {

/// How thorough a maintenance run is.
#[derive(Debug, Clone, Copy, PartialEq, Eq, Structural)]
pub enum MaintenanceMode {
    /// Index work alone.
    Quick,
    /// Everything, which frees space.
    Full,
}

/// How thorough a requested maintenance run is.
#[derive(Debug, Clone, Copy, PartialEq, Eq, Structural)]
pub enum ManualRunMode {
    /// Index work alone.
    Quick,
    /// Everything, which frees space.
    Full,
}

/// The end of the Job name of a scheduled run.
pub open spec fn slot_suffix(mode: MaintenanceMode, slot: Moment) -> Seq<char> {
    (match mode {
        MaintenanceMode::Quick => "-q-"@,
        MaintenanceMode::Full => "-f-"@,
    }) + signed_decimal(slot.secs as int)
}

/// The end of the Job name of a requested run.
pub open spec fn request_suffix(mode: ManualRunMode, requested: Moment) -> Seq<char> {
    (match mode {
        ManualRunMode::Quick => "-mq-"@,
        ManualRunMode::Full => "-mf-"@,
    }) + signed_decimal(requested.secs as int)
}

/// The name of the Job of a scheduled run. It depends on the slot, so that a slot
/// that is driven again meets the Job that it already has.
pub fn maintenance_job_name(cr: &str, mode: MaintenanceMode, slot: Moment) -> (r: String)
    ensures
        r@ == fitted_job_name(cr@, slot_suffix(mode, slot)),
{
    let mut suffix = match mode {
        MaintenanceMode::Quick => "-q-".to_owned(),
        MaintenanceMode::Full => "-f-".to_owned(),
    };
    let at = signed_decimal_text(slot.secs);
    suffix.append(at.as_str());
    fit_job_name(cr, suffix.as_str())
}

/// The name of the Job of a requested run.
pub fn manual_job_name(cr: &str, mode: ManualRunMode, requested: Moment) -> (r: String)
    ensures
        r@ == fitted_job_name(cr@, request_suffix(mode, requested)),
{
    let mut suffix = match mode {
        ManualRunMode::Quick => "-mq-".to_owned(),
        ManualRunMode::Full => "-mf-".to_owned(),
    };
    let at = signed_decimal_text(requested.secs);
    suffix.append(at.as_str());
    fit_job_name(cr, suffix.as_str())
}

/// The Job name of a run fits, scheduled or requested.
pub proof fn lemma_maintenance_job_names_fit(
    cr: Seq<char>,
    mode: MaintenanceMode,
    manual: ManualRunMode,
    at: Moment,
)
    ensures
        fitted_job_name(cr, slot_suffix(mode, at)).len() <= 52,
        fitted_job_name(cr, request_suffix(manual, at)).len() <= 52,
        is_ascii_chars(cr) ==> encode_utf8(fitted_job_name(cr, slot_suffix(mode, at))).len() <= 52,
        is_ascii_chars(cr) ==> encode_utf8(fitted_job_name(cr, request_suffix(manual, at))).len()
            <= 52,
{
    lemma_seconds_are_short(at.secs);
    reveal_strlit("-q-");
    reveal_strlit("-f-");
    reveal_strlit("-mq-");
    reveal_strlit("-mf-");
    lemma_fitted_job_name_fits(cr, slot_suffix(mode, at));
    lemma_fitted_job_name_fits(cr, request_suffix(manual, at));
}

/// At one second the four names differ from each other, whatever the objects are
/// called: a requested run never takes the name of a scheduled one, and the modes never
/// share one.
pub proof fn lemma_maintenance_job_names_differ(a: Seq<char>, b: Seq<char>, at: Moment)
    ensures
        forall|m: MaintenanceMode, n: ManualRunMode|
            fitted_job_name(a, #[trigger] slot_suffix(m, at)) != fitted_job_name(
                b,
                #[trigger] request_suffix(n, at),
            ),
        fitted_job_name(a, slot_suffix(MaintenanceMode::Quick, at)) != fitted_job_name(
            b,
            slot_suffix(MaintenanceMode::Full, at),
        ),
        fitted_job_name(a, request_suffix(ManualRunMode::Quick, at)) != fitted_job_name(
            b,
            request_suffix(ManualRunMode::Full, at),
        ),
{
    let d = signed_decimal(at.secs as int).len();
    reveal_strlit("-q-");
    reveal_strlit("-f-");
    reveal_strlit("-mq-");
    reveal_strlit("-mf-");
    assert forall|m: MaintenanceMode, n: ManualRunMode| fitted_job_name(
        a,
        #[trigger] slot_suffix(m, at),
    ) != fitted_job_name(b, #[trigger] request_suffix(n, at)) by {
        let (s, t) = (slot_suffix(m, at), request_suffix(n, at));
        let (x, y) = (fitted_job_name(a, s), fitted_job_name(b, t));
        lemma_fitted_ends_in_suffix(a, s);
        lemma_fitted_ends_in_suffix(b, t);
        assert(s[0] == '-' && s.len() == 3 + d);
        assert(t[1] == 'm');
        assert(t.len() == 4 + d);
        assert(x.skip(x.len() - s.len())[0] == x[x.len() - d - 3]);
        assert(y.skip(y.len() - t.len())[1] == y[y.len() - d - 3]);
    }
    let (s, t) = (slot_suffix(MaintenanceMode::Quick, at), slot_suffix(MaintenanceMode::Full, at));
    let (x, y) = (fitted_job_name(a, s), fitted_job_name(b, t));
    lemma_fitted_ends_in_suffix(a, s);
    lemma_fitted_ends_in_suffix(b, t);
    assert(s[1] == 'q' && t[1] == 'f');
    assert(x.skip(x.len() - s.len())[1] == x[x.len() - d - 2]);
    assert(y.skip(y.len() - t.len())[1] == y[y.len() - d - 2]);
    let (p, q) = (
        request_suffix(ManualRunMode::Quick, at),
        request_suffix(ManualRunMode::Full, at),
    );
    let (v, w) = (fitted_job_name(a, p), fitted_job_name(b, q));
    lemma_fitted_ends_in_suffix(a, p);
    lemma_fitted_ends_in_suffix(b, q);
    assert(p[2] == 'q' && q[2] == 'f');
    assert(v.skip(v.len() - p.len())[2] == v[v.len() - d - 2]);
    assert(w.skip(w.len() - q.len())[2] == w[w.len() - d - 2]);
}

/// The Job of a run tells its mode and its second: two runs of one mode have the same
/// suffix only at the same second.
pub proof fn lemma_slots_have_their_own_jobs(a: Moment, b: Moment)
    ensures
        slot_suffix(MaintenanceMode::Quick, a) == "-q-"@ + signed_decimal(a.secs as int),
        slot_suffix(MaintenanceMode::Full, a) == "-f-"@ + signed_decimal(a.secs as int),
        request_suffix(ManualRunMode::Quick, a) == "-mq-"@ + signed_decimal(a.secs as int),
        request_suffix(ManualRunMode::Full, a) == "-mf-"@ + signed_decimal(a.secs as int),
        forall|m: MaintenanceMode|
            (#[trigger] slot_suffix(m, a)) == slot_suffix(m, b) ==> a.secs == b.secs,
        forall|m: ManualRunMode|
            (#[trigger] request_suffix(m, a)) == request_suffix(m, b) ==> a.secs == b.secs,
{
    lemma_signed_decimal_reads_back(a.secs as int);
    lemma_signed_decimal_reads_back(b.secs as int);
    reveal_strlit("-q-");
    reveal_strlit("-f-");
    reveal_strlit("-mq-");
    reveal_strlit("-mf-");
    let (x, y) = (signed_decimal(a.secs as int), signed_decimal(b.secs as int));
    assert forall|m: MaintenanceMode|
        (#[trigger] slot_suffix(m, a)) == slot_suffix(m, b) implies a.secs == b.secs by {
        assert(slot_suffix(m, a).skip(3) =~= x);
        assert(slot_suffix(m, b).skip(3) =~= y);
    }
    assert forall|m: ManualRunMode|
        (#[trigger] request_suffix(m, a)) == request_suffix(m, b) implies a.secs == b.secs by {
        assert(request_suffix(m, a).skip(4) =~= x);
        assert(request_suffix(m, b).skip(4) =~= y);
    }
}

} // verus!
