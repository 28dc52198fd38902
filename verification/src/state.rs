//! The whole state of the editor.
use crate::background::{ProxyCache, ProxyCacheView, WaveformCache, WaveformCacheView};
use crate::copying::{copy_all, optional, views, Duplicate};
use crate::media_tools::{MediaDependencyStatus, MediaDependencyStatusView};
use crate::modes::{
    ActiveTool, AiChatRole, AppPage, ExportColorMode, MacPreviewRenderMode, PendingTrimTrack,
    PreviewFps, PreviewQuality, ProxyRenderMode, TransitionType, V1MoveMode,
};
use crate::scalar::Scalar;
use crate::time::Duration;
use crate::tracks::{
    MediaPoolUndoState, MediaPoolUndoStateView, SnapshotView, Timeline, TimelineState,
    TimelineView, UndoManager, UndoView, UNDO_LIMIT,
};
use vstd::prelude::*;

verus! {

broadcast use crate::copying::group_views;

/// A message of the chat.
#[derive(Debug)]
pub struct AiChatMessage {
    pub role: AiChatRole,
    pub text: String,
    pub pending: bool,
}

/// What a message holds.
pub ghost struct AiChatMessageView {
    pub role: AiChatRole,
    pub text: Seq<char>,
    pub pending: bool,
}

impl View for AiChatMessage {
    type V = AiChatMessageView;

    open spec fn view(&self) -> AiChatMessageView {
        AiChatMessageView {
            role: self.role,
            text: self.text@,
            pending: self.pending,
        }
    }
}

impl Clone for AiChatMessage {
    fn clone(&self) -> (copy: Self)
        ensures
            copy@ == self@,
    {
        AiChatMessage {
            role: self.role,
            text: self.text.clone(),
            pending: self.pending,
        }
    }
}

impl Duplicate for AiChatMessage {
    fn duplicate(&self) -> (copy: Self) {
        self.clone()
    }
}

/// A silent stretch that may be cut.
#[derive(Debug)]
pub struct SilencePreviewCandidate {
    pub start_ms: u64,
    pub end_ms: u64,
    pub confidence: Scalar,
    pub reason: String,
    pub selected: bool,
}

/// What a silent stretch holds.
pub ghost struct SilencePreviewCandidateView {
    pub start_ms: u64,
    pub end_ms: u64,
    pub confidence: Scalar,
    pub reason: Seq<char>,
    pub selected: bool,
}

impl View for SilencePreviewCandidate {
    type V = SilencePreviewCandidateView;

    open spec fn view(&self) -> SilencePreviewCandidateView {
        SilencePreviewCandidateView {
            start_ms: self.start_ms,
            end_ms: self.end_ms,
            confidence: self.confidence,
            reason: self.reason@,
            selected: self.selected,
        }
    }
}

impl Clone for SilencePreviewCandidate {
    fn clone(&self) -> (copy: Self)
        ensures
            copy@ == self@,
    {
        SilencePreviewCandidate {
            start_ms: self.start_ms,
            end_ms: self.end_ms,
            confidence: self.confidence,
            reason: self.reason.clone(),
            selected: self.selected,
        }
    }
}

impl Duplicate for SilencePreviewCandidate {
    fn duplicate(&self) -> (copy: Self) {
        self.clone()
    }
}

/// The silent stretches to choose from.
#[derive(Debug)]
pub struct SilencePreviewModalState {
    pub candidates: Vec<SilencePreviewCandidate>,
    pub timeline_revision: String,
}

/// What is to choose from.
pub ghost struct SilencePreviewModalStateView {
    pub candidates: Seq<SilencePreviewCandidateView>,
    pub timeline_revision: Seq<char>,
}

impl View for SilencePreviewModalState {
    type V = SilencePreviewModalStateView;

    open spec fn view(&self) -> SilencePreviewModalStateView {
        SilencePreviewModalStateView {
            candidates: views(self.candidates@),
            timeline_revision: self.timeline_revision@,
        }
    }
}

impl Clone for SilencePreviewModalState {
    fn clone(&self) -> (copy: Self)
        ensures
            copy@ == self@,
    {
        SilencePreviewModalState {
            candidates: copy_all(&self.candidates),
            timeline_revision: self.timeline_revision.clone(),
        }
    }
}

impl Duplicate for SilencePreviewModalState {
    fn duplicate(&self) -> (copy: Self) {
        self.clone()
    }
}

/// An entry of the media pool that is being dragged.
#[derive(Debug)]
pub struct MediaPoolDragState {
    pub path: String,
    pub name: String,
    pub cursor_x: Scalar,
    pub cursor_y: Scalar,
}

/// What is being dragged.
pub ghost struct MediaPoolDragStateView {
    pub path: Seq<char>,
    pub name: Seq<char>,
    pub cursor_x: Scalar,
    pub cursor_y: Scalar,
}

impl View for MediaPoolDragState {
    type V = MediaPoolDragStateView;

    open spec fn view(&self) -> MediaPoolDragStateView {
        MediaPoolDragStateView {
            path: self.path@,
            name: self.name@,
            cursor_x: self.cursor_x,
            cursor_y: self.cursor_y,
        }
    }
}

impl Clone for MediaPoolDragState {
    fn clone(&self) -> (copy: Self)
        ensures
            copy@ == self@,
    {
        MediaPoolDragState {
            path: self.path.clone(),
            name: self.name.clone(),
            cursor_x: self.cursor_x,
            cursor_y: self.cursor_y,
        }
    }
}

impl Duplicate for MediaPoolDragState {
    fn duplicate(&self) -> (copy: Self) {
        self.clone()
    }
}

/// The menu of an entry of the media pool.
#[derive(Debug)]
pub struct MediaPoolContextMenuState {
    pub path: String,
    pub x: Scalar,
    pub y: Scalar,
}

/// What the menu holds.
pub ghost struct MediaPoolContextMenuStateView {
    pub path: Seq<char>,
    pub x: Scalar,
    pub y: Scalar,
}

impl View for MediaPoolContextMenuState {
    type V = MediaPoolContextMenuStateView;

    open spec fn view(&self) -> MediaPoolContextMenuStateView {
        MediaPoolContextMenuStateView {
            path: self.path@,
            x: self.x,
            y: self.y,
        }
    }
}

impl Clone for MediaPoolContextMenuState {
    fn clone(&self) -> (copy: Self)
        ensures
            copy@ == self@,
    {
        MediaPoolContextMenuState {
            path: self.path.clone(),
            x: self.x,
            y: self.y,
        }
    }
}

impl Duplicate for MediaPoolContextMenuState {
    fn duplicate(&self) -> (copy: Self) {
        self.clone()
    }
}

/// A dissolve longer than the media allows, that waits for a decision.
#[derive(Clone, Copy, Debug, PartialEq, Eq, Structural)]
pub struct PendingTrimToFit {
    pub left_id: u64,
    pub right_id: u64,
    pub requested: Scalar,
    pub track: PendingTrimTrack,
}

/// The external tools and what is said about them.
#[derive(Debug)]
pub struct ToolStatus {
    pub ffmpeg_path: String,
    pub ffprobe_path: String,
    pub gstreamer_path: String,
    pub gstreamer_available: bool,
    pub media_dependency: MediaDependencyStatus,
    pub show_media_dependency_modal: bool,
    pub show_preview_memory_budget_modal: bool,
    pub preview_memory_budget_mb: Option<usize>,
}

/// What it holds.
pub ghost struct ToolStatusView {
    pub ffmpeg_path: Seq<char>,
    pub ffprobe_path: Seq<char>,
    pub gstreamer_path: Seq<char>,
    pub gstreamer_available: bool,
    pub media_dependency: MediaDependencyStatusView,
    pub show_media_dependency_modal: bool,
    pub show_preview_memory_budget_modal: bool,
    pub preview_memory_budget_mb: Option<usize>,
}

impl View for ToolStatus {
    type V = ToolStatusView;

    open spec fn view(&self) -> ToolStatusView {
        ToolStatusView {
            ffmpeg_path: self.ffmpeg_path@,
            ffprobe_path: self.ffprobe_path@,
            gstreamer_path: self.gstreamer_path@,
            gstreamer_available: self.gstreamer_available,
            media_dependency: self.media_dependency@,
            show_media_dependency_modal: self.show_media_dependency_modal,
            show_preview_memory_budget_modal: self.show_preview_memory_budget_modal,
            preview_memory_budget_mb: self.preview_memory_budget_mb,
        }
    }
}

/// What is selected on the tracks.
#[derive(Debug)]
pub struct Selection {
    pub selected_clip_id: Option<u64>,
    pub selected_subtitle_id: Option<u64>,
    pub selected_clip_ids: Vec<u64>,
    pub selected_subtitle_ids: Vec<u64>,
}

/// What it holds.
pub ghost struct SelectionView {
    pub selected_clip_id: Option<u64>,
    pub selected_subtitle_id: Option<u64>,
    pub selected_clip_ids: Seq<u64>,
    pub selected_subtitle_ids: Seq<u64>,
}

impl View for Selection {
    type V = SelectionView;

    open spec fn view(&self) -> SelectionView {
        SelectionView {
            selected_clip_id: self.selected_clip_id,
            selected_subtitle_id: self.selected_subtitle_id,
            selected_clip_ids: self.selected_clip_ids@,
            selected_subtitle_ids: self.selected_subtitle_ids@,
        }
    }
}

/// How far an export is.
#[derive(Debug)]
pub struct ExportStatus {
    pub export_in_progress: bool,
    pub export_last_error: Option<String>,
    pub export_last_out_path: Option<String>,
    pub export_progress_ratio: Scalar,
    pub export_progress_rendered: Duration,
    pub export_progress_total: Duration,
    pub export_eta: Option<Duration>,
    pub export_color_mode: ExportColorMode,
}

/// What it holds.
pub ghost struct ExportStatusView {
    pub export_in_progress: bool,
    pub export_last_error: Option<Seq<char>>,
    pub export_last_out_path: Option<Seq<char>>,
    pub export_progress_ratio: Scalar,
    pub export_progress_rendered: int,
    pub export_progress_total: int,
    pub export_eta: Option<Duration>,
    pub export_color_mode: ExportColorMode,
}

impl View for ExportStatus {
    type V = ExportStatusView;

    open spec fn view(&self) -> ExportStatusView {
        ExportStatusView {
            export_in_progress: self.export_in_progress,
            export_last_error: optional(self.export_last_error),
            export_last_out_path: optional(self.export_last_out_path),
            export_progress_ratio: self.export_progress_ratio,
            export_progress_rendered: self.export_progress_rendered@,
            export_progress_total: self.export_progress_total@,
            export_eta: self.export_eta,
            export_color_mode: self.export_color_mode,
        }
    }
}

/// How the preview is drawn.
#[derive(Debug)]
pub struct PreviewSettings {
    pub canvas_w: Scalar,
    pub canvas_h: Scalar,
    pub preview_fps: PreviewFps,
    pub preview_video_input_fps: Scalar,
    pub preview_present_fps: Scalar,
    pub preview_present_dropped_frames: u64,
    pub preview_quality: PreviewQuality,
    pub proxy_render_mode_high: ProxyRenderMode,
    pub proxy_render_mode_medium: ProxyRenderMode,
    pub proxy_render_mode_low: ProxyRenderMode,
    pub mac_preview_render_mode: MacPreviewRenderMode,
}

/// What it holds.
pub ghost struct PreviewSettingsView {
    pub canvas_w: Scalar,
    pub canvas_h: Scalar,
    pub preview_fps: PreviewFps,
    pub preview_video_input_fps: Scalar,
    pub preview_present_fps: Scalar,
    pub preview_present_dropped_frames: u64,
    pub preview_quality: PreviewQuality,
    pub proxy_render_mode_high: ProxyRenderMode,
    pub proxy_render_mode_medium: ProxyRenderMode,
    pub proxy_render_mode_low: ProxyRenderMode,
    pub mac_preview_render_mode: MacPreviewRenderMode,
}

impl View for PreviewSettings {
    type V = PreviewSettingsView;

    open spec fn view(&self) -> PreviewSettingsView {
        PreviewSettingsView {
            canvas_w: self.canvas_w,
            canvas_h: self.canvas_h,
            preview_fps: self.preview_fps,
            preview_video_input_fps: self.preview_video_input_fps,
            preview_present_fps: self.preview_present_fps,
            preview_present_dropped_frames: self.preview_present_dropped_frames,
            preview_quality: self.preview_quality,
            proxy_render_mode_high: self.proxy_render_mode_high,
            proxy_render_mode_medium: self.proxy_render_mode_medium,
            proxy_render_mode_low: self.proxy_render_mode_low,
            mac_preview_render_mode: self.mac_preview_render_mode,
        }
    }
}

/// The script of the effects page.
#[derive(Debug)]
pub struct MotionLoomScene {
    pub motionloom_scene_script: String,
    pub motionloom_scene_script_revision: u64,
    pub motionloom_scene_apply_revision: u64,
    pub motionloom_scene_render_mode: Option<String>,
    pub motionloom_scene_render_revision: u64,
}

/// What it holds.
pub ghost struct MotionLoomSceneView {
    pub motionloom_scene_script: Seq<char>,
    pub motionloom_scene_script_revision: u64,
    pub motionloom_scene_apply_revision: u64,
    pub motionloom_scene_render_mode: Option<Seq<char>>,
    pub motionloom_scene_render_revision: u64,
}

impl View for MotionLoomScene {
    type V = MotionLoomSceneView;

    open spec fn view(&self) -> MotionLoomSceneView {
        MotionLoomSceneView {
            motionloom_scene_script: self.motionloom_scene_script@,
            motionloom_scene_script_revision: self.motionloom_scene_script_revision,
            motionloom_scene_apply_revision: self.motionloom_scene_apply_revision,
            motionloom_scene_render_mode: optional(self.motionloom_scene_render_mode),
            motionloom_scene_render_revision: self.motionloom_scene_render_revision,
        }
    }
}

/// The state of the editor.
#[derive(Debug)]
pub struct GlobalState {
    pub timeline: Timeline,
    pub media: MediaPoolUndoState,
    pub media_pool_drag: Option<MediaPoolDragState>,
    pub media_pool_context_menu: Option<MediaPoolContextMenuState>,
    pub selection: Selection,
    pub tools: ToolStatus,
    pub export: ExportStatus,
    pub preview: PreviewSettings,
    pub scene: MotionLoomScene,
    pub is_playing: bool,
    pub active_tool: ActiveTool,
    pub active_page: AppPage,
    pub project_file_path: Option<String>,
    pub undo_manager: UndoManager,
    pub active_local_mask_layer: usize,
    pub(crate) next_clip_id: u64,
    pub(crate) timeline_edit_token: u64,
    pub v1_move_mode: V1MoveMode,
    pub inspector_expanded: bool,
    pub pending_transition: Option<TransitionType>,
    pub ui_notice: Option<String>,
    pub ai_chat_messages: Vec<AiChatMessage>,
    pub silence_preview_modal: Option<SilencePreviewModalState>,
    pub pending_trim_to_fit: Option<PendingTrimToFit>,
    pub proxies: ProxyCache,
    pub waveforms: WaveformCache,
    pub(crate) primary_av_links_repair_done: bool,
}

/// What it holds.
pub ghost struct StateView {
    pub timeline: TimelineView,
    pub media: MediaPoolUndoStateView,
    pub media_pool_drag: Option<MediaPoolDragStateView>,
    pub media_pool_context_menu: Option<MediaPoolContextMenuStateView>,
    pub selection: SelectionView,
    pub tools: ToolStatusView,
    pub export: ExportStatusView,
    pub preview: PreviewSettingsView,
    pub scene: MotionLoomSceneView,
    pub is_playing: bool,
    pub active_tool: ActiveTool,
    pub active_page: AppPage,
    pub project_file_path: Option<Seq<char>>,
    pub undo_manager: UndoView,
    pub active_local_mask_layer: usize,
    pub next_clip_id: u64,
    pub timeline_edit_token: u64,
    pub v1_move_mode: V1MoveMode,
    pub inspector_expanded: bool,
    pub pending_transition: Option<TransitionType>,
    pub ui_notice: Option<Seq<char>>,
    pub ai_chat_messages: Seq<AiChatMessageView>,
    pub silence_preview_modal: Option<SilencePreviewModalStateView>,
    pub pending_trim_to_fit: Option<PendingTrimToFit>,
    pub proxies: ProxyCacheView,
    pub waveforms: WaveformCacheView,
    pub primary_av_links_repair_done: bool,
}

impl View for GlobalState {
    type V = StateView;

    open(crate) spec fn view(&self) -> StateView {
        StateView {
            timeline: self.timeline@,
            media: self.media@,
            media_pool_drag: optional(self.media_pool_drag),
            media_pool_context_menu: optional(self.media_pool_context_menu),
            selection: self.selection@,
            tools: self.tools@,
            export: self.export@,
            preview: self.preview@,
            scene: self.scene@,
            is_playing: self.is_playing,
            active_tool: self.active_tool,
            active_page: self.active_page,
            project_file_path: optional(self.project_file_path),
            undo_manager: self.undo_manager@,
            active_local_mask_layer: self.active_local_mask_layer,
            next_clip_id: self.next_clip_id,
            timeline_edit_token: self.timeline_edit_token,
            v1_move_mode: self.v1_move_mode,
            inspector_expanded: self.inspector_expanded,
            pending_transition: self.pending_transition,
            ui_notice: optional(self.ui_notice),
            ai_chat_messages: views(self.ai_chat_messages@),
            silence_preview_modal: optional(self.silence_preview_modal),
            pending_trim_to_fit: self.pending_trim_to_fit,
            proxies: self.proxies@,
            waveforms: self.waveforms@,
            primary_av_links_repair_done: self.primary_av_links_repair_done,
        }
    }
}

impl StateView {
    /// A snapshot of the timeline, with the media pool if that is wanted.
    pub open spec fn snapshot(self, with_media_pool: bool) -> SnapshotView {
        SnapshotView {
            timeline: self.timeline,
            media_pool: if with_media_pool {
                Some(self.media)
            } else {
                None
            },
        }
    }

    /// The state with the snapshot in place of the timeline, and of the media pool
    /// where the snapshot has it. Nothing is selected on the tracks afterwards.
    pub open spec fn restored(self, state: SnapshotView) -> StateView {
        let cleared = StateView {
            timeline: state.timeline,
            selection: SelectionView::nothing(),
            ..self
        };
        match state.media_pool {
            Some(pool) => StateView {
                media: pool,
                media_pool_drag: None,
                media_pool_context_menu: None,
                ..cleared
            },
            None => cleared,
        }
    }

    /// The state with the next edit token.
    pub open spec fn edited(self) -> StateView {
        StateView {
            timeline_edit_token: if self.timeline_edit_token == u64::MAX {
                0
            } else {
                (self.timeline_edit_token + 1) as u64
            },
            ..self
        }
    }

    /// The state with a snapshot recorded, ready for an edit.
    #[verifier::opaque]
    pub open spec fn saved(self, with_media_pool: bool) -> StateView {
        StateView {
            undo_manager: self.undo_manager.pushed(self.snapshot(with_media_pool)),
            ..self
        }.edited()
    }

    /// The state after the last edit was taken back.
    pub open spec fn undone(self) -> StateView {
        if self.undo_manager.past.len() == 0 {
            self
        } else {
            StateView {
                undo_manager: self.undo_manager.gone_back(self.snapshot(true)),
                ..self
            }.restored(self.undo_manager.past.last()).edited()
        }
    }

    /// The state after the edit that was taken back last was made again.
    pub open spec fn redone(self) -> StateView {
        if self.undo_manager.future.len() == 0 {
            self
        } else {
            StateView {
                undo_manager: self.undo_manager.gone_forward(self.snapshot(true)),
                ..self
            }.restored(self.undo_manager.future.last()).edited()
        }
    }
}

/// Recording a snapshot changes nothing but the history and the edit token.
pub proof fn saving_keeps_all_else(s: StateView, with_media_pool: bool)
    ensures
        s.saved(with_media_pool) == (StateView {
            undo_manager: s.saved(with_media_pool).undo_manager,
            timeline_edit_token: s.saved(with_media_pool).timeline_edit_token,
            ..s
        }),
{
    reveal(StateView::saved);
}

impl SelectionView {
    /// Nothing selected.
    pub open spec fn nothing() -> SelectionView {
        SelectionView {
            selected_clip_id: None,
            selected_subtitle_id: None,
            selected_clip_ids: Seq::empty(),
            selected_subtitle_ids: Seq::empty(),
        }
    }
}

impl GlobalState {
    pub(crate) fn capture_state(&self, with_media_pool: bool) -> (state: TimelineState)
        ensures
            state@ == self@.snapshot(with_media_pool),
    {
        TimelineState {
            timeline: self.timeline.clone(),
            media_pool_state: if with_media_pool {
                Some(self.media.clone())
            } else {
                None
            },
        }
    }

    pub(crate) fn restore_state(&mut self, state: TimelineState)
        ensures
            final(self)@ == old(self)@.restored(state@),
    {
        self.timeline = state.timeline;
        if let Some(pool) = state.media_pool_state {
            self.media = pool;
            self.media_pool_drag = None;
            self.media_pool_context_menu = None;
        }
        self.selection.selected_clip_id = None;
        self.selection.selected_subtitle_id = None;
        self.selection.selected_clip_ids.clear();
        self.selection.selected_subtitle_ids.clear();
    }

    pub(crate) fn bump_timeline_edit_token(&mut self)
        ensures
            final(self)@ == old(self)@.edited(),
    {
        if self.timeline_edit_token == u64::MAX {
            self.timeline_edit_token = 0;
        } else {
            self.timeline_edit_token = self.timeline_edit_token + 1;
        }
    }

    /// Records a snapshot of the timeline. To be called before an edit.
    pub fn save_for_undo(&mut self)
        ensures
            final(self)@ == old(self)@.saved(false),
            final(self)@ == (StateView {
                undo_manager: final(self)@.undo_manager,
                timeline_edit_token: final(self)@.timeline_edit_token,
                ..old(self)@
            }),
    {
        reveal(StateView::saved);
        let state = self.capture_state(false);
        self.undo_manager.push(state);
        self.bump_timeline_edit_token();
    }

    /// Records a snapshot of the timeline and the media pool. To be called before an
    /// edit of both.
    pub fn save_for_undo_with_media_pool(&mut self)
        ensures
            final(self)@ == old(self)@.saved(true),
            final(self)@ == (StateView {
                undo_manager: final(self)@.undo_manager,
                timeline_edit_token: final(self)@.timeline_edit_token,
                ..old(self)@
            }),
    {
        reveal(StateView::saved);
        let state = self.capture_state(true);
        self.undo_manager.push(state);
        self.bump_timeline_edit_token();
    }

    /// Takes the last edit back.
    pub fn undo(&mut self)
        ensures
            final(self)@ == old(self)@.undone(),
    {
        let current = self.capture_state(true);
        if let Some(previous) = self.undo_manager.undo(current) {
            self.restore_state(previous);
            self.bump_timeline_edit_token();
        }
    }

    /// Makes the edit that was taken back last again.
    pub fn redo(&mut self)
        ensures
            final(self)@ == old(self)@.redone(),
    {
        let current = self.capture_state(true);
        if let Some(next) = self.undo_manager.redo(current) {
            self.restore_state(next);
            self.bump_timeline_edit_token();
        }
    }
}

// ---------------------------------------------------------------------------
// What undo and redo promise
// ---------------------------------------------------------------------------

/// An edit that recorded a snapshot before it began can be taken back: whatever it
/// did to the rest of the state, the timeline is as it was, the media pool is as it
/// was where the snapshot has it, and nothing is selected on the tracks.
pub proof fn undo_takes_an_edit_back(before: StateView, with_media_pool: bool, after: StateView)
    requires
        after.undo_manager == before.saved(with_media_pool).undo_manager,
    ensures
        after.undone().timeline == before.timeline,
        with_media_pool ==> after.undone().media == before.media,
        !with_media_pool ==> after.undone().media == after.media,
        after.undone().selection == SelectionView::nothing(),
        after.undone().next_clip_id == after.next_clip_id,
{
    reveal(StateView::saved);
    let past = before.undo_manager.past.push(before.snapshot(with_media_pool));
    assert(after.undo_manager.past.last() == past.last());
}

/// What was taken back can be made again: the timeline, the media pool and the
/// history are as they were before the step back.
pub proof fn redo_makes_the_edit_again(s: StateView)
    requires
        s.undo_manager.past.len() > 0,
    ensures
        s.undone().redone().timeline == s.timeline,
        s.undone().redone().media == s.media,
        s.undone().redone().undo_manager.future == s.undo_manager.future,
        s.undone().redone().undo_manager.past.len() == s.undo_manager.past.len(),
        s.undone().redone().undo_manager.past.last().timeline
            == s.undo_manager.past.last().timeline,
{
    let back = s.undone();
    assert(back.undo_manager.future.last() == s.snapshot(true));
    assert(back.undo_manager.future.drop_last() =~= s.undo_manager.future);
    let again = back.redone();
    assert(again.undo_manager.past.last() == back.snapshot(true));
}

/// How many snapshots the history holds.
pub open spec fn history_size(h: UndoView) -> nat {
    h.past.len() + h.future.len()
}

/// The history never holds more snapshots than it may: a new edit keeps it to the
/// limit, and going back or forth changes nothing of the number.
pub proof fn history_is_bounded(h: UndoView, state: SnapshotView)
    ensures
        h.past.len() <= UNDO_LIMIT ==> history_size(h.pushed(state)) <= UNDO_LIMIT,
        history_size(h.gone_back(state)) == history_size(h),
        history_size(h.gone_forward(state)) == history_size(h),
{
}

/// A new edit leaves nothing to go forward to.
pub proof fn new_edit_ends_redo(s: StateView, with_media_pool: bool)
    ensures
        s.saved(with_media_pool).redone() == s.saved(with_media_pool),
{
    reveal(StateView::saved);
}

} // verus!
