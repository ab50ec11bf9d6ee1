//! Why a capture refuses a request.

use vstd::prelude::*;
use crate::text::decimal;
use crate::text::decimal_text;
use crate::text::prefixed_hex;
use crate::text::prefixed_hex_text;

verus! {

/// How far a capture has come.
#[derive(Clone, Copy, Debug, PartialEq, Eq, Structural)]
pub enum CapturePhase {
    /// Memory can be appended.
    Capturing,
    /// The manifest is written.
    Finalized,
    /// The capture was given up.
    Failed,
}

impl CapturePhase {
    /// The name of the phase.
    pub open spec fn name(self) -> Seq<char> {
        match self {
            CapturePhase::Capturing => "Capturing"@,
            CapturePhase::Finalized => "Finalized"@,
            CapturePhase::Failed => "Failed"@,
        }
    }

    fn name_text(self) -> (name: &'static str)
        ensures
            name@ == self.name(),
    {
        match self {
            CapturePhase::Capturing => "Capturing",
            CapturePhase::Finalized => "Finalized",
            CapturePhase::Failed => "Failed",
        }
    }
}

/// Why a capture refuses a request.
#[derive(Debug, PartialEq, Eq)]
pub enum CaptureError {
    /// The destination is not a `file://` URL.
    NotAFileUrl { url: String },
    /// Memory was to be appended to a capture that takes none.
    NotAccepting { id: u64, phase: CapturePhase },
    /// Memory was to be appended, and the memory file is closed.
    MemoryFileClosed { id: u64 },
    /// Guest memory could not be copied to the memory file.
    GuestMemory { id: u64, cause: String },
    /// The restored memory file would be longer than a file can be.
    RestoreSizeOverflow,
    /// A segment reaches beyond the last address.
    GpaOverflow,
    /// No range of the restore layout holds the segment from `gpa` to `end`.
    OutsideRestoreLayout { gpa: u64, end: u64 },
    /// The capture cannot be finalized in the phase it is in.
    NotFinalizable { id: u64, phase: CapturePhase },
}

impl CaptureError {
    /// The error in words.
    pub open spec fn text(self) -> Seq<char> {
        match self {
            CaptureError::NotAFileUrl { url } => "Could not extract path from URL: "@ + url@,
            CaptureError::NotAccepting { id, phase } => "capture "@ + decimal(id)
                + " is not accepting memory in phase "@ + phase.name(),
            CaptureError::MemoryFileClosed { id } => "capture "@ + decimal(id)
                + " memory file is closed"@,
            CaptureError::GuestMemory { id, cause } =>
                "error writing guest memory for capture "@ + decimal(id) + ": "@ + cause@,
            CaptureError::RestoreSizeOverflow => "restore memory file size overflow"@,
            CaptureError::GpaOverflow => "memory delta GPA overflow"@,
            CaptureError::OutsideRestoreLayout { gpa, end } => "memory delta ["@ + prefixed_hex(gpa)
                + ", "@ + prefixed_hex(end) + ") is outside the restore layout"@,
            CaptureError::NotFinalizable { id, phase } => "capture "@ + decimal(id)
                + " cannot be finalized from phase "@ + phase.name(),
        }
    }

    /// The error in words.
    pub fn message(&self) -> (message: String)
        ensures
            message@ == self.text(),
    {
        match self {
            CaptureError::NotAFileUrl { url } => "Could not extract path from URL: ".to_owned().concat(
                url.as_str(),
            ),
            CaptureError::NotAccepting { id, phase } => "capture ".to_owned().concat(
                decimal_text(*id).as_str(),
            ).concat(" is not accepting memory in phase ").concat(phase.name_text()),
            CaptureError::MemoryFileClosed { id } => "capture ".to_owned().concat(
                decimal_text(*id).as_str(),
            ).concat(" memory file is closed"),
            CaptureError::GuestMemory { id, cause } =>
                "error writing guest memory for capture ".to_owned().concat(
                decimal_text(*id).as_str(),
            ).concat(": ").concat(cause.as_str()),
            CaptureError::RestoreSizeOverflow => "restore memory file size overflow".to_owned(),
            CaptureError::GpaOverflow => "memory delta GPA overflow".to_owned(),
            CaptureError::OutsideRestoreLayout { gpa, end } => "memory delta [".to_owned().concat(
                prefixed_hex_text(*gpa).as_str(),
            ).concat(", ").concat(prefixed_hex_text(*end).as_str()).concat(
                ") is outside the restore layout",
            ),
            CaptureError::NotFinalizable { id, phase } => "capture ".to_owned().concat(
                decimal_text(*id).as_str(),
            ).concat(" cannot be finalized from phase ").concat(phase.name_text()),
        }
    }
}

/// The words of an error name what was refused: the capture by its number, the phase
/// by its name, the segment by its bounds, and the cause.
pub proof fn law_message_names_what_was_refused(
    id: u64,
    phase: CapturePhase,
    gpa: u64,
    end: u64,
    cause: String,
)
    ensures
        (CaptureError::NotAFileUrl { url: cause }).text() == "Could not extract path from URL: "@
            + cause@,
        (CaptureError::NotAccepting { id, phase }).text() == "capture "@ + decimal(id)
            + " is not accepting memory in phase "@ + phase.name(),
        (CaptureError::MemoryFileClosed { id }).text() == "capture "@ + decimal(id)
            + " memory file is closed"@,
        (CaptureError::GuestMemory { id, cause }).text()
            == "error writing guest memory for capture "@ + decimal(id) + ": "@ + cause@,
        CaptureError::RestoreSizeOverflow.text() == "restore memory file size overflow"@,
        CaptureError::GpaOverflow.text() == "memory delta GPA overflow"@,
        (CaptureError::OutsideRestoreLayout { gpa, end }).text() == "memory delta ["@
            + prefixed_hex(gpa) + ", "@ + prefixed_hex(end) + ") is outside the restore layout"@,
        (CaptureError::NotFinalizable { id, phase }).text() == "capture "@ + decimal(id)
            + " cannot be finalized from phase "@ + phase.name(),
        CapturePhase::Capturing.name() == "Capturing"@,
        CapturePhase::Finalized.name() == "Finalized"@,
        CapturePhase::Failed.name() == "Failed"@,
{
}

} // verus!
