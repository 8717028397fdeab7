//! Per-profile tracking dispositions of Records: what a request asks to
//! set, and how a stored disposition is named.

use crate::identity::{is_typed_id, RecordId};
use crate::problem::ProblemCode;
use vstd::prelude::*;

verus! {

/// How a profile tracks a Record.
#[derive(Clone, Copy, Debug, PartialEq, Eq, Structural)]
pub enum TrackingDisposition {
    Watching,
    OnHold,
    Dropped,
}

/// What a request asks for: a disposition, or to unset it.
#[derive(Clone, Copy, Debug, PartialEq, Eq, Structural)]
pub enum TrackingDispositionUpdate {
    Watching,
    OnHold,
    Dropped,
    Unset,
}

impl TrackingDisposition {
    pub open spec fn text(self) -> Seq<char> {
        match self {
            TrackingDisposition::Watching => "watching"@,
            TrackingDisposition::OnHold => "on_hold"@,
            TrackingDisposition::Dropped => "dropped"@,
        }
    }

    /// The wire name of the disposition.
    pub fn as_str(&self) -> (s: &'static str)
        ensures
            s@ == self.text(),
    {
        match self {
            TrackingDisposition::Watching => "watching",
            TrackingDisposition::OnHold => "on_hold",
            TrackingDisposition::Dropped => "dropped",
        }
    }
}

/// The disposition a request sets; `None` unsets it.
pub fn requested_disposition(update: TrackingDispositionUpdate) -> (r: Option<TrackingDisposition>)
    ensures
        r == match update {
            TrackingDispositionUpdate::Watching => Some(TrackingDisposition::Watching),
            TrackingDispositionUpdate::OnHold => Some(TrackingDisposition::OnHold),
            TrackingDispositionUpdate::Dropped => Some(TrackingDisposition::Dropped),
            TrackingDispositionUpdate::Unset => None::<TrackingDisposition>,
        },
{
    match update {
        TrackingDispositionUpdate::Watching => Some(TrackingDisposition::Watching),
        TrackingDispositionUpdate::OnHold => Some(TrackingDisposition::OnHold),
        TrackingDispositionUpdate::Dropped => Some(TrackingDisposition::Dropped),
        TrackingDispositionUpdate::Unset => None,
    }
}

/// The Record a disposition route names: a malformed identifier names no
/// Record, so it is answered as not found.
pub fn tracked_record(record_id: &str) -> (r: Result<RecordId, ProblemCode>)
    ensures
        match r {
            Ok(id) => is_typed_id(record_id@, "rec_"@) && id@ == record_id@,
            Err(code) => code == ProblemCode::RecordNotFound && !is_typed_id(
                record_id@,
                "rec_"@,
            ),
        },
{
    match RecordId::parse(record_id) {
        Some(id) => Ok(id),
        None => Err(ProblemCode::RecordNotFound),
    }
}

} // verus!
