//! What can go wrong in an export.
use crate::text::{joined, joined3, owned, text_is, trim, trimmed};
use vstd::prelude::*;

verus! {

/// The text by which a cancelled export is known.
pub const EXPORT_CANCELLED_ERR: &'static str = "__ANICA_EXPORT_CANCELLED__";

/// What went wrong in an export.
#[derive(Debug)]
pub enum ExportError {
    KeepSourceCopyUnavailable,
    GpuOpacityPathUnavailable { reason: String },
    InitializeGpuOpacityProcessor { message: String },
    SubtitleRender { message: String },
    MissingOutputPathArg,
    ExecuteFfmpeg { source: String },
    ExecuteStageFfmpeg { stage: &'static str, source: String },
    MissingProgressOutput,
    MissingErrorOutput,
    MissingFfmpegPipe { stage: &'static str, pipe: &'static str },
    ReadFfmpegProgress { source: String },
    ReadFfmpegFrame { stage: &'static str, source: String },
    WriteFfmpegFrame { stage: &'static str, source: String },
    WaitFfmpegProcess { source: String },
    WaitStageFfmpegProcess { stage: &'static str, source: String },
    FfmpegFailed { stderr: String },
    StageFfmpegFailed { stage: &'static str, status: String, stderr: String },
    ProcessGpuOpacityFrame { message: String },
    MissingInternalState { state: &'static str },
    Cancelled,
    ReplaceExistingOutput { source: String },
    FinalizeOutput { source: String },
}


impl ExportError {
    /// What is told of it.
    pub open spec fn text(self) -> Seq<char> {
        match self {
            ExportError::KeepSourceCopyUnavailable =>
                "Keep Source (Copy) is unavailable for current timeline/output setup."@,
            ExportError::GpuOpacityPathUnavailable { reason } => reason@,
            ExportError::InitializeGpuOpacityProcessor { message } =>
                "Failed to initialize GPU opacity processor: "@ + message@,
            ExportError::SubtitleRender { message } => message@,
            ExportError::MissingOutputPathArg => "Failed to build FFmpeg output path."@,
            ExportError::ExecuteFfmpeg { source } => "Failed to execute FFmpeg: "@ + source@,
            ExportError::ExecuteStageFfmpeg { stage, source } => "Failed to execute "@ + stage@
                + " FFmpeg: "@ + source@,
            ExportError::MissingProgressOutput => "Failed to capture FFmpeg progress output."@,
            ExportError::MissingErrorOutput => "Failed to capture FFmpeg error output."@,
            ExportError::MissingFfmpegPipe { stage, pipe } => "Missing "@ + stage@ + " FFmpeg "@
                + pipe@ + " pipe."@,
            ExportError::ReadFfmpegProgress { source } => "Failed to read FFmpeg progress: "@
                + source@,
            ExportError::ReadFfmpegFrame { stage, source } => "Failed to read "@ + stage@
                + " FFmpeg frame stream: "@ + source@,
            ExportError::WriteFfmpegFrame { stage, source } => "Failed to write "@ + stage@
                + " FFmpeg frame stream: "@ + source@,
            ExportError::WaitFfmpegProcess { source } => "Failed waiting FFmpeg process: "@
                + source@,
            ExportError::WaitStageFfmpegProcess { stage, source } => "Failed waiting "@ + stage@
                + " FFmpeg process: "@ + source@,
            ExportError::FfmpegFailed { stderr } => "FFmpeg failed.\nSTDERR:\n"@ + stderr@,
            ExportError::StageFfmpegFailed { stage, status, stderr } => stage@
                + " FFmpeg failed ("@ + status@ + ").\nSTDERR:\n"@ + stderr@,
            ExportError::ProcessGpuOpacityFrame { message } =>
                "Failed to process GPU opacity frame: "@ + message@,
            ExportError::MissingInternalState { state } => "Internal export state missing: "@
                + state@,
            ExportError::Cancelled => "__ANICA_EXPORT_CANCELLED__"@,
            ExportError::ReplaceExistingOutput { source } =>
                "Failed to replace existing output file: "@ + source@,
            ExportError::FinalizeOutput { source } => "Failed to finalize output file: "@ + source@,
        }
    }

    /// What is told of it.
    pub fn message(&self) -> (text: String)
        ensures
            text@ == self.text(),
    {
        match self {
            ExportError::KeepSourceCopyUnavailable => owned(
                "Keep Source (Copy) is unavailable for current timeline/output setup.",
            ),
            ExportError::GpuOpacityPathUnavailable { reason } => owned(reason.as_str()),
            ExportError::InitializeGpuOpacityProcessor { message } => joined(
                "Failed to initialize GPU opacity processor: ",
                message.as_str(),
            ),
            ExportError::SubtitleRender { message } => owned(message.as_str()),
            ExportError::MissingOutputPathArg => owned("Failed to build FFmpeg output path."),
            ExportError::ExecuteFfmpeg { source } => joined(
                "Failed to execute FFmpeg: ",
                source.as_str(),
            ),
            ExportError::ExecuteStageFfmpeg { stage, source } => joined(
                joined3("Failed to execute ", stage, " FFmpeg: ").as_str(),
                source.as_str(),
            ),
            ExportError::MissingProgressOutput => owned(
                "Failed to capture FFmpeg progress output.",
            ),
            ExportError::MissingErrorOutput => owned("Failed to capture FFmpeg error output."),
            ExportError::MissingFfmpegPipe { stage, pipe } => joined3(
                joined3("Missing ", stage, " FFmpeg ").as_str(),
                pipe,
                " pipe.",
            ),
            ExportError::ReadFfmpegProgress { source } => joined(
                "Failed to read FFmpeg progress: ",
                source.as_str(),
            ),
            ExportError::ReadFfmpegFrame { stage, source } => joined(
                joined3("Failed to read ", stage, " FFmpeg frame stream: ").as_str(),
                source.as_str(),
            ),
            ExportError::WriteFfmpegFrame { stage, source } => joined(
                joined3("Failed to write ", stage, " FFmpeg frame stream: ").as_str(),
                source.as_str(),
            ),
            ExportError::WaitFfmpegProcess { source } => joined(
                "Failed waiting FFmpeg process: ",
                source.as_str(),
            ),
            ExportError::WaitStageFfmpegProcess { stage, source } => joined(
                joined3("Failed waiting ", stage, " FFmpeg process: ").as_str(),
                source.as_str(),
            ),
            ExportError::FfmpegFailed { stderr } => joined(
                "FFmpeg failed.\nSTDERR:\n",
                stderr.as_str(),
            ),
            ExportError::StageFfmpegFailed { stage, status, stderr } => joined3(
                joined3(stage, " FFmpeg failed (", status.as_str()).as_str(),
                ").\nSTDERR:\n",
                stderr.as_str(),
            ),
            ExportError::ProcessGpuOpacityFrame { message } => joined(
                "Failed to process GPU opacity frame: ",
                message.as_str(),
            ),
            ExportError::MissingInternalState { state } => joined(
                "Internal export state missing: ",
                state,
            ),
            ExportError::Cancelled => owned("__ANICA_EXPORT_CANCELLED__"),
            ExportError::ReplaceExistingOutput { source } => joined(
                "Failed to replace existing output file: ",
                source.as_str(),
            ),
            ExportError::FinalizeOutput { source } => joined(
                "Failed to finalize output file: ",
                source.as_str(),
            ),
        }
    }
}

/// Whether an error is that of a cancelled export.
pub fn is_cancelled_export_error(err: &str) -> (yes: bool)
    ensures
        yes == (trimmed(err@) == "__ANICA_EXPORT_CANCELLED__"@),
{
    text_is(trim(err).as_str(), EXPORT_CANCELLED_ERR)
}

/// A cancelled export is known by what is told of it.
pub proof fn cancelled_is_told()
    ensures
        trimmed(ExportError::Cancelled.text()) == "__ANICA_EXPORT_CANCELLED__"@,
{
    reveal_strlit("__ANICA_EXPORT_CANCELLED__");
    let t = "__ANICA_EXPORT_CANCELLED__"@;
    assert(t[0] == '_' && t.last() == '_');
    assert(crate::text::trimmed_start(t) == t);
    assert(crate::text::trimmed_end(t) == t);
}

/// What the program wrote of its failure; a note where it wrote nothing.
pub open spec fn failure_words(stderr: Seq<char>) -> Seq<char> {
    if trimmed(stderr).len() == 0 {
        "empty stderr"@
    } else {
        trimmed(stderr)
    }
}

/// The error for a stage that failed.
pub fn stage_failure(stage: &'static str, status: &str, stderr: &str) -> (e: ExportError)
    ensures
        e matches ExportError::StageFfmpegFailed { stage: s, status: t, stderr: w } && s@ == stage@
            && t@ == status@ && w@ == failure_words(stderr@),
{
    let words = trim(stderr);
    if words.as_str().unicode_len() == 0 {
        ExportError::StageFfmpegFailed {
            stage,
            status: owned(status),
            stderr: owned("empty stderr"),
        }
    } else {
        ExportError::StageFfmpegFailed { stage, status: owned(status), stderr: words }
    }
}

} // verus!
