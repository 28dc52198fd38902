//! What can go wrong with an edit.
use crate::text::{joined, owned};
use vstd::prelude::*;

verus! {

/// Why an edit was refused.
#[derive(Debug)]
pub enum GlobalStateError {
    NoSemanticClipSelected,
    InvalidSemanticSchemaJson { message: String },
    InvalidSemanticDurationType,
    InvalidSemanticDurationValue,
    SelectedSemanticClipMissing,
    SemanticSchemaValidationFailed { message: String },
    TargetSemanticClipMissing,
    UnsupportedGeneratedMediaPath,
    ClipNoLongerExists,
    DissolveRequiresAdjacentClips,
    InsufficientDissolveHandles,
    SrtParse { message: String },
    NoClipToCut { track: String },
    NoSubtitleToCut,
}

impl GlobalStateError {
    /// The text shown for the error.
    pub open spec fn text(self) -> Seq<char> {
        match self {
            GlobalStateError::NoSemanticClipSelected => "No semantic clip selected."@,
            GlobalStateError::InvalidSemanticSchemaJson { message } => "Invalid JSON schema: "@
                + message@,
            GlobalStateError::InvalidSemanticDurationType => "duration_sec must be a number (seconds)."@,
            GlobalStateError::InvalidSemanticDurationValue => "duration_sec must be > 0."@,
            GlobalStateError::SelectedSemanticClipMissing => "Selected semantic clip no longer exists."@,
            GlobalStateError::SemanticSchemaValidationFailed { message } => message@,
            GlobalStateError::TargetSemanticClipMissing => "Target semantic clip no longer exists."@,
            GlobalStateError::UnsupportedGeneratedMediaPath => "Generated media path is not a supported format."@,
            GlobalStateError::ClipNoLongerExists => "Clip no longer exists."@,
            GlobalStateError::DissolveRequiresAdjacentClips => "Dissolve requires adjacent clips on V1."@,
            GlobalStateError::InsufficientDissolveHandles => "Insufficient media (handles) for dissolve."@,
            GlobalStateError::SrtParse { message } => "Failed to parse SRT: "@ + message@,
            GlobalStateError::NoClipToCut { track } => "No clip to cut on "@ + track@,
            GlobalStateError::NoSubtitleToCut => "No subtitle to cut on Subtitle Track"@,
        }
    }

    /// The text shown for the error.
    pub fn message(&self) -> (text: String)
        ensures
            text@ == self.text(),
    {
        match self {
            GlobalStateError::NoSemanticClipSelected => owned("No semantic clip selected."),
            GlobalStateError::InvalidSemanticSchemaJson { message } => joined(
                "Invalid JSON schema: ",
                message.as_str(),
            ),
            GlobalStateError::InvalidSemanticDurationType => owned(
                "duration_sec must be a number (seconds).",
            ),
            GlobalStateError::InvalidSemanticDurationValue => owned("duration_sec must be > 0."),
            GlobalStateError::SelectedSemanticClipMissing => owned(
                "Selected semantic clip no longer exists.",
            ),
            GlobalStateError::SemanticSchemaValidationFailed { message } => message.clone(),
            GlobalStateError::TargetSemanticClipMissing => owned(
                "Target semantic clip no longer exists.",
            ),
            GlobalStateError::UnsupportedGeneratedMediaPath => owned(
                "Generated media path is not a supported format.",
            ),
            GlobalStateError::ClipNoLongerExists => owned("Clip no longer exists."),
            GlobalStateError::DissolveRequiresAdjacentClips => owned(
                "Dissolve requires adjacent clips on V1.",
            ),
            GlobalStateError::InsufficientDissolveHandles => owned(
                "Insufficient media (handles) for dissolve.",
            ),
            GlobalStateError::SrtParse { message } => joined(
                "Failed to parse SRT: ",
                message.as_str(),
            ),
            GlobalStateError::NoClipToCut { track } => joined("No clip to cut on ", track.as_str()),
            GlobalStateError::NoSubtitleToCut => owned("No subtitle to cut on Subtitle Track"),
        }
    }
}

} // verus!
