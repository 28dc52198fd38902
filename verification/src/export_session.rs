//! An export from its start to its end: after each thing that happened, what is done next.
use crate::copying::{copy_text, optional};
use crate::export_run::{
    line_step, AfterFailure, ExportAttempt, ExportTimelineView, FfmpegExporter, GpuPath, LineStep,
    ProgressReader, ProgressView,
};
use crate::export_settings::{ExportMode, ExportPreset};
use crate::time::{least, Duration};
use vstd::prelude::*;

verus! {

/// Where an export is.
#[derive(Debug, Clone, Copy, PartialEq, Eq, Structural)]
pub enum ExportPhase {
    /// The graphics processor does it.
    OnGpu,
    /// The first command is chosen.
    Choosing,
    /// Subtitles are drawn for the first command.
    Drawing,
    /// A command is running.
    Running,
    /// It is over.
    Over,
}

/// How a run through the graphics processor ended.
#[derive(Debug, Clone, Copy, PartialEq, Eq, Structural)]
pub enum GpuOutcome {
    Done,
    Cancelled,
    Failed,
}

/// Something that happened.
#[derive(Debug)]
pub enum ExportEvent {
    GpuEnded { outcome: GpuOutcome, cancel_requested: bool },
    /// The first command was chosen: a copy, or one for which subtitles are drawn, or neither.
    Chosen { copies: bool, draws: bool },
    /// There is no command for what is wanted.
    NothingChosen,
    Drawn,
    NotDrawn,
    /// The command told something.
    Line { text: String, cancel_requested: bool },
    /// The command ended.
    Ended { success: bool, crashed: bool, cancel_requested: bool },
}

/// What is done next.
#[derive(Debug)]
pub enum ExportAction {
    Nothing,
    ChooseCommand,
    DrawSubtitles,
    RunChosen,
    /// Build the command of filters anew and run it.
    RunRebuilt { preset: ExportPreset, without_masks: bool },
    /// Tell how far it is, with the speed as it was told.
    Report { rendered: Duration, speed: Option<String> },
    /// Tell how far it is, and wait for the command to end.
    ReportAndWait { rendered: Duration, speed: Option<String> },
    /// Put the output in its place and tell that it is done.
    PutInPlace,
    /// End the command, remove the output and tell that it was cancelled.
    Cancel,
    /// Tell what failed.
    Refuse,
    /// Remove the output and tell what failed.
    GiveUp,
}

/// Something that happened.
pub ghost enum EventView {
    GpuEnded { outcome: GpuOutcome, cancel_requested: bool },
    Chosen { copies: bool, draws: bool },
    NothingChosen,
    Drawn,
    NotDrawn,
    Line { text: Seq<char>, cancel_requested: bool },
    Ended { success: bool, crashed: bool, cancel_requested: bool },
}

impl View for ExportEvent {
    type V = EventView;

    open spec fn view(&self) -> EventView {
        match *self {
            ExportEvent::GpuEnded { outcome, cancel_requested } => EventView::GpuEnded {
                outcome,
                cancel_requested,
            },
            ExportEvent::Chosen { copies, draws } => EventView::Chosen { copies, draws },
            ExportEvent::NothingChosen => EventView::NothingChosen,
            ExportEvent::Drawn => EventView::Drawn,
            ExportEvent::NotDrawn => EventView::NotDrawn,
            ExportEvent::Line { text, cancel_requested } => EventView::Line {
                text: text@,
                cancel_requested,
            },
            ExportEvent::Ended { success, crashed, cancel_requested } => EventView::Ended {
                success,
                crashed,
                cancel_requested,
            },
        }
    }
}

/// What is done next.
pub ghost enum ActionView {
    Nothing,
    ChooseCommand,
    DrawSubtitles,
    RunChosen,
    RunRebuilt { preset: ExportPreset, without_masks: bool },
    Report { rendered: int, speed: Option<Seq<char>> },
    ReportAndWait { rendered: int, speed: Option<Seq<char>> },
    PutInPlace,
    Cancel,
    Refuse,
    GiveUp,
}

impl View for ExportAction {
    type V = ActionView;

    open spec fn view(&self) -> ActionView {
        match *self {
            ExportAction::Nothing => ActionView::Nothing,
            ExportAction::ChooseCommand => ActionView::ChooseCommand,
            ExportAction::DrawSubtitles => ActionView::DrawSubtitles,
            ExportAction::RunChosen => ActionView::RunChosen,
            ExportAction::RunRebuilt { preset, without_masks } => ActionView::RunRebuilt {
                preset,
                without_masks,
            },
            ExportAction::Report { rendered, speed } => ActionView::Report {
                rendered: rendered@,
                speed: optional(speed),
            },
            ExportAction::ReportAndWait { rendered, speed } => ActionView::ReportAndWait {
                rendered: rendered@,
                speed: optional(speed),
            },
            ExportAction::PutInPlace => ActionView::PutInPlace,
            ExportAction::Cancel => ActionView::Cancel,
            ExportAction::Refuse => ActionView::Refuse,
            ExportAction::GiveUp => ActionView::GiveUp,
        }
    }
}

/// An export that is going on.
#[derive(Debug)]
pub struct ExportSession {
    pub phase: ExportPhase,
    pub attempt: ExportAttempt,
    pub progress: ProgressReader,
    pub total: Duration,
}

/// An export that is going on.
pub ghost struct SessionView {
    pub phase: ExportPhase,
    pub attempt: ExportAttempt,
    pub progress: ProgressView,
    pub total: int,
}

impl View for ExportSession {
    type V = SessionView;

    open spec fn view(&self) -> SessionView {
        SessionView {
            phase: self.phase,
            attempt: self.attempt,
            progress: self.progress@,
            total: self.total@,
        }
    }
}

/// Nothing has been told of the progress.
pub open spec fn no_progress() -> ProgressView {
    ProgressView { rendered: 0, speed: None }
}

impl SessionView {
    /// An export at its start.
    pub open spec fn begun(preset: ExportPreset, path: GpuPath, total: int) -> SessionView {
        SessionView {
            phase: if path is Neither {
                ExportPhase::Choosing
            } else {
                ExportPhase::OnGpu
            },
            attempt: ExportAttempt::first(preset, false),
            progress: no_progress(),
            total,
        }
    }

    /// The export with a command running.
    pub open spec fn running(self, attempt: ExportAttempt) -> SessionView {
        SessionView {
            phase: ExportPhase::Running,
            attempt,
            progress: no_progress(),
            ..self
        }
    }

    /// The export when it is over.
    pub open spec fn over(self) -> SessionView {
        SessionView { phase: ExportPhase::Over, ..self }
    }

    /// After the graphics processor: done, cancelled, or on with a command.
    pub open spec fn after_gpu(self, outcome: GpuOutcome, cancel_requested: bool) -> (
        SessionView,
        ActionView,
    ) {
        match outcome {
            GpuOutcome::Done => if cancel_requested {
                (self.over(), ActionView::Cancel)
            } else {
                (self.over(), ActionView::PutInPlace)
            },
            GpuOutcome::Cancelled => (self.over(), ActionView::Cancel),
            GpuOutcome::Failed => (
                SessionView { phase: ExportPhase::Choosing, ..self },
                ActionView::ChooseCommand,
            ),
        }
    }

    /// After a line of a running command.
    pub open spec fn after_line(self, text: Seq<char>, cancel_requested: bool) -> (
        SessionView,
        ActionView,
    ) {
        if cancel_requested {
            (self.over(), ActionView::Cancel)
        } else {
            let progress = self.progress.after_line(text);
            let rendered = least(progress.rendered, self.total);
            (
                SessionView { progress, ..self },
                match line_step(text) {
                    LineStep::Nothing => ActionView::Nothing,
                    LineStep::Report => ActionView::Report { rendered, speed: progress.speed },
                    LineStep::ReportEnd => ActionView::ReportAndWait {
                        rendered,
                        speed: progress.speed,
                    },
                },
            )
        }
    }

    /// After a command ended.
    pub open spec fn after_end(self, success: bool, crashed: bool, cancel_requested: bool) -> (
        SessionView,
        ActionView,
    ) {
        if success {
            if cancel_requested {
                (self.over(), ActionView::Cancel)
            } else {
                (self.over(), ActionView::PutInPlace)
            }
        } else {
            let (attempt, next) = self.attempt.next(crashed);
            match next {
                AfterFailure::Retry { preset, without_masks } => (
                    self.running(attempt),
                    ActionView::RunRebuilt { preset, without_masks },
                ),
                AfterFailure::Fail => (self.over(), ActionView::GiveUp),
            }
        }
    }

    /// The export after something happened, and what is done next. What does not belong to where
    /// it is changes nothing.
    #[verifier::opaque]
    pub open spec fn after(self, event: EventView) -> (SessionView, ActionView) {
        match (self.phase, event) {
            (ExportPhase::OnGpu, EventView::GpuEnded { outcome, cancel_requested }) =>
                self.after_gpu(outcome, cancel_requested),
            (ExportPhase::Choosing, EventView::Chosen { copies, draws }) => {
                let attempt = ExportAttempt { used_copy: copies, ..self.attempt };
                if draws {
                    (
                        SessionView { phase: ExportPhase::Drawing, attempt, ..self },
                        ActionView::DrawSubtitles,
                    )
                } else {
                    (self.running(attempt), ActionView::RunChosen)
                }
            },
            (ExportPhase::Choosing, EventView::NothingChosen) => (
                self.over(),
                ActionView::Refuse,
            ),
            (ExportPhase::Drawing, EventView::Drawn) => (
                self.running(self.attempt),
                ActionView::RunChosen,
            ),
            (ExportPhase::Drawing, EventView::NotDrawn) => (self.over(), ActionView::Refuse),
            (ExportPhase::Running, EventView::Line { text, cancel_requested }) => self.after_line(
                text,
                cancel_requested,
            ),
            (ExportPhase::Running, EventView::Ended { success, crashed, cancel_requested }) =>
                self.after_end(success, crashed, cancel_requested),
            _ => (self, ActionView::Nothing),
        }
    }

    /// How far an export is from its end, not counting what a command tells.
    pub open spec fn steps_left(self) -> int {
        match self.phase {
            ExportPhase::OnGpu => 6,
            ExportPhase::Choosing => 5,
            ExportPhase::Drawing => 4,
            ExportPhase::Running => 1 + self.attempt.tries_left(),
            ExportPhase::Over => 0,
        }
    }
}

/// Whether an action starts a command.
pub open spec fn starts_command(a: ActionView) -> bool {
    a is RunChosen || a is RunRebuilt
}

/// An export comes nearer to its end with everything that happens but what a command tells;
/// what does not belong to where it is changes nothing, and nothing happens to one that is
/// over.
pub proof fn session_comes_to_its_end(s: SessionView, event: EventView)
    ensures
        ({
            let (t, action) = s.after(event);
            &&& 0 <= s.steps_left() <= 6
            &&& t != s && !(event is Line) ==> t.steps_left() < s.steps_left()
            &&& event is Line ==> t.steps_left() <= s.steps_left()
            &&& s.phase is Over ==> t == s && action is Nothing
            &&& starts_command(action) ==> t.phase is Running
        }),
{
    reveal(SessionView::after);
}

/// Once it was asked for, cancelling ends an export at the next line of a running command or
/// when it ends well, and no output is put in its place.
pub proof fn cancelled_export_gives_no_output(s: SessionView, event: EventView)
    requires
        match event {
            EventView::GpuEnded { cancel_requested, .. } => cancel_requested,
            EventView::Line { cancel_requested, .. } => cancel_requested,
            EventView::Ended { cancel_requested, .. } => cancel_requested,
            _ => false,
        },
    ensures
        !(s.after(event).1 is PutInPlace),
        s.phase is Running && event is Line ==> s.after(event).0.phase is Over && s.after(
            event,
        ).1 is Cancel,
{
    reveal(SessionView::after);
}

/// What is told never is past the end of the export.
pub proof fn reports_stay_within_total(s: SessionView, event: EventView)
    ensures
        match s.after(event).1 {
            ActionView::Report { rendered, .. } => rendered <= s.total,
            ActionView::ReportAndWait { rendered, .. } => rendered <= s.total,
            _ => true,
        },
{
    reveal(SessionView::after);
}

/// Where only a copy is wanted, nothing is encoded: the export begins by choosing a command, is
/// refused where there is no copy, and is given up where the copy fails.
pub proof fn copy_alone_encodes_nothing(
    t: ExportTimelineView,
    preset: ExportPreset,
    total: int,
    crashed: bool,
    cancel_requested: bool,
)
    ensures
        ({
            let s = SessionView::begun(
                preset,
                FfmpegExporter::way(ExportMode::KeepSourceCopy, t, preset),
                total,
            );
            let copying = s.after(EventView::Chosen { copies: true, draws: false });
            let failed = EventView::Ended { success: false, crashed, cancel_requested };
            &&& s.phase is Choosing
            &&& s.after(EventView::NothingChosen) == (s.over(), ActionView::Refuse)
            &&& copying.1 is RunChosen
            &&& copying.0.after(failed) == (copying.0.over(), ActionView::GiveUp)
        }),
{
    reveal(SessionView::after);
}

impl ExportSession {
    /// An export at its start.
    pub fn new(preset: ExportPreset, path: GpuPath, total: Duration) -> (s: ExportSession)
        ensures
            s@ == SessionView::begun(preset, path, total@),
    {
        ExportSession {
            phase: if matches!(path, GpuPath::Neither) {
                ExportPhase::Choosing
            } else {
                ExportPhase::OnGpu
            },
            attempt: ExportAttempt::new(preset, false),
            progress: ProgressReader::new(),
            total,
        }
    }

    fn end(&mut self)
        ensures
            final(self)@ == old(self)@.over(),
    {
        self.phase = ExportPhase::Over;
    }

    fn start(&mut self)
        ensures
            final(self)@ == old(self)@.running(old(self)@.attempt),
    {
        self.phase = ExportPhase::Running;
        self.progress = ProgressReader::new();
    }

    fn after_gpu(&mut self, outcome: GpuOutcome, cancel_requested: bool) -> (action: ExportAction)
        ensures
            (final(self)@, action@) == old(self)@.after_gpu(outcome, cancel_requested),
    {
        match outcome {
            GpuOutcome::Done => {
                self.end();
                if cancel_requested {
                    ExportAction::Cancel
                } else {
                    ExportAction::PutInPlace
                }
            },
            GpuOutcome::Cancelled => {
                self.end();
                ExportAction::Cancel
            },
            GpuOutcome::Failed => {
                self.phase = ExportPhase::Choosing;
                ExportAction::ChooseCommand
            },
        }
    }

    fn after_line(&mut self, text: &str, cancel_requested: bool) -> (action: ExportAction)
        ensures
            (final(self)@, action@) == old(self)@.after_line(text@, cancel_requested),
    {
        if cancel_requested {
            self.end();
            return ExportAction::Cancel;
        }
        let step = self.progress.take_line(text);
        let rendered = self.progress.rendered_of(self.total);
        match step {
            LineStep::Nothing => ExportAction::Nothing,
            LineStep::Report => ExportAction::Report {
                rendered,
                speed: copy_text(&self.progress.speed),
            },
            LineStep::ReportEnd => ExportAction::ReportAndWait {
                rendered,
                speed: copy_text(&self.progress.speed),
            },
        }
    }

    fn after_end(&mut self, success: bool, crashed: bool, cancel_requested: bool) -> (action:
        ExportAction)
        ensures
            (final(self)@, action@) == old(self)@.after_end(success, crashed, cancel_requested),
    {
        if success {
            self.end();
            return if cancel_requested {
                ExportAction::Cancel
            } else {
                ExportAction::PutInPlace
            };
        }
        match self.attempt.after_failure(crashed) {
            AfterFailure::Retry { preset, without_masks } => {
                self.start();
                ExportAction::RunRebuilt { preset, without_masks }
            },
            AfterFailure::Fail => {
                self.end();
                ExportAction::GiveUp
            },
        }
    }

    /// Takes in something that happened; gives what is done next.
    pub fn advance(&mut self, event: ExportEvent) -> (action: ExportAction)
        ensures
            (final(self)@, action@) == old(self)@.after(event@),
    {
        reveal(SessionView::after);
        match (self.phase, event) {
            (ExportPhase::OnGpu, ExportEvent::GpuEnded { outcome, cancel_requested }) =>
                self.after_gpu(outcome, cancel_requested),
            (ExportPhase::Choosing, ExportEvent::Chosen { copies, draws }) => {
                self.attempt.used_copy = copies;
                if draws {
                    self.phase = ExportPhase::Drawing;
                    ExportAction::DrawSubtitles
                } else {
                    self.start();
                    ExportAction::RunChosen
                }
            },
            (ExportPhase::Choosing, ExportEvent::NothingChosen) => {
                self.end();
                ExportAction::Refuse
            },
            (ExportPhase::Drawing, ExportEvent::Drawn) => {
                self.start();
                ExportAction::RunChosen
            },
            (ExportPhase::Drawing, ExportEvent::NotDrawn) => {
                self.end();
                ExportAction::Refuse
            },
            (ExportPhase::Running, ExportEvent::Line { text, cancel_requested }) => self.after_line(
                text.as_str(),
                cancel_requested,
            ),
            (ExportPhase::Running, ExportEvent::Ended { success, crashed, cancel_requested }) =>
                self.after_end(success, crashed, cancel_requested),
            _ => ExportAction::Nothing,
        }
    }
}

} // verus!
