use vstd::prelude::*;

use crate::diff::{ChangeView, ScheduleChange, changes_view, diff, diff_spec};
use crate::document::{decode_schedule, lemma_document_round_trip, schedule_tree, valid_schedule};
use crate::model::{Schedule, ScheduleError};

verus! {

/// What an update reports, given the stored schedule (if a file exists for
/// the year, as read) and the freshly fetched one: `MalformedScheduleData`
/// when the fetched schedule is not valid; otherwise nothing when there is
/// no stored schedule, the comparison when there is one, and the read
/// failure when the stored file could not be read.
pub open spec fn update_report(
    local: Option<Result<Seq<Seq<Option<Seq<char>>>>, ScheduleError>>,
    fresh: Seq<Seq<Option<Seq<char>>>>,
) -> Result<Seq<ChangeView>, ScheduleError> {
    if !valid_schedule(fresh) {
        Err(ScheduleError::MalformedScheduleData)
    } else {
        match local {
            None => Ok(Seq::empty()),
            Some(Err(e)) => Err(e),
            Some(Ok(old)) => Ok(diff_spec(old, fresh)),
        }
    }
}

pub open spec fn local_view(local: Option<Result<Schedule, ScheduleError>>) -> Option<
    Result<Seq<Seq<Option<Seq<char>>>>, ScheduleError>,
> {
    match local {
        None => None,
        Some(Err(e)) => Some(Err(e)),
        Some(Ok(s)) => Some(Ok(s@)),
    }
}

pub open spec fn report_view(r: Result<Vec<ScheduleChange>, ScheduleError>) -> Result<
    Seq<ChangeView>,
    ScheduleError,
> {
    match r {
        Ok(v) => Ok(changes_view(v@)),
        Err(e) => Err(e),
    }
}

/// Decides an update once the fresh schedule is fetched. `Ok` means the
/// fresh schedule is to replace the stored one, whether or not anything
/// changed, and carries the changes to report; `Err` means the update stops
/// and the stored file is left as it is.
pub fn plan_update(local: &Option<Result<Schedule, ScheduleError>>, fresh: &Schedule) -> (r: Result<
    Vec<ScheduleChange>,
    ScheduleError,
>)
    ensures
        report_view(r) == update_report(local_view(*local), fresh@),
{
    if fresh.validate().is_err() {
        return Err(ScheduleError::MalformedScheduleData);
    }
    match local {
        None => {
            let v: Vec<ScheduleChange> = Vec::new();
            assert(changes_view(v@) =~= Seq::empty());
            Ok(v)
        },
        Some(Err(e)) => Err(*e),
        Some(Ok(old)) => Ok(diff(old, fresh)),
    }
}

/// A schedule that an update accepts for writing reads back from its stored
/// document unchanged.
pub proof fn lemma_accepted_update_reads_back(
    local: Option<Result<Seq<Seq<Option<Seq<char>>>>, ScheduleError>>,
    fresh: Schedule,
)
    requires
        update_report(local, fresh@) is Ok,
    ensures
        decode_schedule(schedule_tree(fresh@)) == Some(fresh@),
{
    lemma_document_round_trip(fresh);
}

} // verus!
