//! Parts of the activity event envelope that stand on their own: where an
//! activity was captured, and how its ingestion was acknowledged.

use vstd::prelude::*;

verus! {

/// Provenance metadata recording how and where an activity was captured.
#[derive(Clone, Debug)]
pub struct Provenance {
    /// Ingestion channel (for example `player`, `webhook`, `import`,
    /// `manual`, `sync`).
    pub channel: String,
    /// The external client or adapter, such as `floppy-import/1.0`.
    pub client: String,
    /// The source's own event identifier, for deduplication.
    pub external_event_id: Option<String>,
}

/// How an idempotent event ingestion was acknowledged.
#[derive(Clone, Copy, Debug, PartialEq, Eq, Structural)]
pub enum ReceiptStatus {
    Committed,
    DuplicateIgnored,
    CorrectionAccepted,
}

impl ReceiptStatus {
    pub open spec fn text(self) -> Seq<char> {
        match self {
            ReceiptStatus::Committed => "committed"@,
            ReceiptStatus::DuplicateIgnored => "duplicate_ignored"@,
            ReceiptStatus::CorrectionAccepted => "correction_accepted"@,
        }
    }

    /// The status's wire name.
    pub fn as_str(&self) -> (s: &'static str)
        ensures
            s@ == self.text(),
    {
        match self {
            ReceiptStatus::Committed => "committed",
            ReceiptStatus::DuplicateIgnored => "duplicate_ignored",
            ReceiptStatus::CorrectionAccepted => "correction_accepted",
        }
    }
}

} // verus!
