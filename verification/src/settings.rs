//! The state at first, and its settings.
use crate::background::{ProxyCache, ProxyCacheView, WaveformCache, WaveformCacheView};
use crate::copying::optional;
use crate::effect::{MAX_LOCAL_MASK_LAYERS, ONE, ZERO};
use crate::json::{documents, lemma_documents, members, JsonMember, JsonNumber, JsonValue, JsonView};
use crate::json_writing::{text_in_one_line, write_in_one_line, written};
use crate::layer::LayerColorBlurEffects;
use crate::media_tools::{
    first_line, first_non_empty_line, HostPlatform, MediaDependencyStatus,
    MediaDependencyStatusView,
};
use crate::modes::{
    ActiveTool, AppPage, ExportColorMode, MacPreviewRenderMode, PreviewFps, PreviewQuality,
    ProxyRenderMode, V1MoveMode,
};
use crate::placing::next_number;
use crate::rounding::{widen, widened};
use crate::scalar::{magnitude, Scalar, INFINITE};
use crate::semantic::{member, push_member};
use crate::state::{
    ExportStatus, ExportStatusView, GlobalState, MotionLoomScene, MotionLoomSceneView,
    PreviewSettings, PreviewSettingsView, Selection, SelectionView, SilencePreviewCandidate,
    SilencePreviewCandidateView, SilencePreviewModalState, SilencePreviewModalStateView, StateView,
    ToolStatus, ToolStatusView,
};
use crate::text::{joined, joined3, lowered, owned, text_is, to_ascii_lowercase, trim, trimmed};
use crate::time::{greatest, least, Duration};
use crate::tracks::{
    AudioTrack, AudioTrackView, MediaPoolUndoState, MediaPoolUndoStateView, Timeline, TimelineView,
    UndoManager, UndoView,
};
use std::collections::HashMap;
use vstd::prelude::*;

verus! {

broadcast use {crate::copying::group_views, vstd::std_specs::hash::group_hash_axioms};

/// The bit pattern of 1920.
pub const FULL_HD_WIDTH: u32 = 0x44f0_0000;

/// The bit pattern of 1080.
pub const FULL_HD_HEIGHT: u32 = 0x4487_0000;

/// The bit pattern of 144, the smallest side of a canvas.
pub const SMALLEST_SIDE: u32 = 0x4310_0000;

/// The bit pattern of 7680, the largest side of a canvas.
pub const LARGEST_SIDE: u32 = 0x45f0_0000;

/// The bit pattern of 360.
pub const PANEL_WIDTH: u32 = 0x43b4_0000;

// ---------------------------------------------------------------------------
// The state at first
// ---------------------------------------------------------------------------

impl TimelineView {
    /// A timeline with nothing but an empty audio track.
    pub open spec fn fresh() -> TimelineView {
        TimelineView {
            v1_clips: seq![],
            audio_tracks: seq![
                AudioTrackView { name: "A1"@, clips: seq![], gain_db: Scalar { bits: 0 } },
            ],
            video_tracks: seq![],
            subtitle_tracks: seq![],
            semantic_clips: seq![],
            track_visibility: seq![],
            track_lock: seq![],
            track_mute: seq![],
            subtitle_groups: Map::empty(),
            next_subtitle_group_id: 1,
            playhead: 0,
            semantic_mark_start: None,
            layer_color_blur_effects: LayerColorBlurEffects::neutral(),
            layer_effect_clips: seq![],
            selected_layer_effect_clip_id: None,
            selected_semantic_clip_id: None,
        }
    }
}

impl Timeline {
    fn fresh() -> (t: Timeline)
        ensures
            t@ == TimelineView::fresh(),
    {
        let mut audio_tracks: Vec<AudioTrack> = Vec::new();
        audio_tracks.push(AudioTrack::new(owned("A1")));
        let t = Timeline {
            v1_clips: Vec::new(),
            audio_tracks,
            video_tracks: Vec::new(),
            subtitle_tracks: Vec::new(),
            semantic_clips: Vec::new(),
            track_visibility: Vec::new(),
            track_lock: Vec::new(),
            track_mute: Vec::new(),
            subtitle_groups: HashMap::new(),
            next_subtitle_group_id: 1,
            playhead: Duration::zero(),
            semantic_mark_start: None,
            layer_color_blur_effects: LayerColorBlurEffects::default(),
            layer_effect_clips: Vec::new(),
            selected_layer_effect_clip_id: None,
            selected_semantic_clip_id: None,
        };
        proof {
            assert(t@.v1_clips =~= seq![]);
            assert(t@.audio_tracks =~= TimelineView::fresh().audio_tracks);
            assert(t@.video_tracks =~= seq![]);
            assert(t@.subtitle_tracks =~= seq![]);
            assert(t@.semantic_clips =~= seq![]);
            assert(t@.track_visibility =~= seq![]);
            assert(t@.track_lock =~= seq![]);
            assert(t@.track_mute =~= seq![]);
            assert(t@.subtitle_groups =~= Map::empty());
            assert(t@.layer_effect_clips =~= seq![]);
        }
        t
    }
}

/// An empty media pool.
pub open spec fn fresh_media() -> MediaPoolUndoStateView {
    MediaPoolUndoStateView {
        active_source_path: ""@,
        active_source_name: "No Source Loaded"@,
        active_source_duration: 0,
        media_pool: seq![],
        pending_media_pool_path: None,
    }
}

fn make_fresh_media() -> (m: MediaPoolUndoState)
    ensures
        m@ == fresh_media(),
{
    let m = MediaPoolUndoState {
        active_source_path: owned(""),
        active_source_name: owned("No Source Loaded"),
        active_source_duration: Duration::zero(),
        media_pool: Vec::new(),
        pending_media_pool_path: None,
    };
    assert(m@.media_pool =~= seq![]);
    m
}

/// Tools of which nothing is known.
pub open spec fn fresh_tools(host: HostPlatform) -> ToolStatusView {
    ToolStatusView {
        ffmpeg_path: "ffmpeg"@,
        ffprobe_path: "ffprobe"@,
        gstreamer_path: "gst-launch-1.0"@,
        gstreamer_available: false,
        media_dependency: MediaDependencyStatusView::nothing(host),
        show_media_dependency_modal: false,
        show_preview_memory_budget_modal: false,
        preview_memory_budget_mb: None,
    }
}

fn make_fresh_tools(host: HostPlatform) -> (t: ToolStatus)
    ensures
        t@ == fresh_tools(host),
{
    ToolStatus {
        ffmpeg_path: owned("ffmpeg"),
        ffprobe_path: owned("ffprobe"),
        gstreamer_path: owned("gst-launch-1.0"),
        gstreamer_available: false,
        media_dependency: MediaDependencyStatus::new(host),
        show_media_dependency_modal: false,
        show_preview_memory_budget_modal: false,
        preview_memory_budget_mb: None,
    }
}

/// No export.
pub open spec fn fresh_export() -> ExportStatusView {
    ExportStatusView {
        export_in_progress: false,
        export_last_error: None,
        export_last_out_path: None,
        export_progress_ratio: Scalar { bits: ZERO },
        export_progress_rendered: 0,
        export_progress_total: 0,
        export_eta: None,
        export_color_mode: ExportColorMode::Hybrid,
    }
}

fn make_fresh_export() -> (e: ExportStatus)
    ensures
        e@ == fresh_export(),
{
    ExportStatus {
        export_in_progress: false,
        export_last_error: None,
        export_last_out_path: None,
        export_progress_ratio: Scalar { bits: ZERO },
        export_progress_rendered: Duration::zero(),
        export_progress_total: Duration::zero(),
        export_eta: None,
        export_color_mode: ExportColorMode::Hybrid,
    }
}

/// The preview at first: full HD, at 60 frames in a second.
pub open spec fn fresh_preview() -> PreviewSettingsView {
    PreviewSettingsView {
        canvas_w: Scalar { bits: FULL_HD_WIDTH },
        canvas_h: Scalar { bits: FULL_HD_HEIGHT },
        preview_fps: PreviewFps::Fps60,
        preview_video_input_fps: Scalar { bits: ZERO },
        preview_present_fps: Scalar { bits: ZERO },
        preview_present_dropped_frames: 0,
        preview_quality: PreviewQuality::Full,
        proxy_render_mode_high: ProxyRenderMode::Nv12Surface,
        proxy_render_mode_medium: ProxyRenderMode::Nv12Surface,
        proxy_render_mode_low: ProxyRenderMode::Nv12Surface,
        mac_preview_render_mode: MacPreviewRenderMode::HybridNv12,
    }
}

fn make_fresh_preview() -> (p: PreviewSettings)
    ensures
        p@ == fresh_preview(),
{
    PreviewSettings {
        canvas_w: Scalar { bits: FULL_HD_WIDTH },
        canvas_h: Scalar { bits: FULL_HD_HEIGHT },
        preview_fps: PreviewFps::Fps60,
        preview_video_input_fps: Scalar { bits: ZERO },
        preview_present_fps: Scalar { bits: ZERO },
        preview_present_dropped_frames: 0,
        preview_quality: PreviewQuality::Full,
        proxy_render_mode_high: ProxyRenderMode::Nv12Surface,
        proxy_render_mode_medium: ProxyRenderMode::Nv12Surface,
        proxy_render_mode_low: ProxyRenderMode::Nv12Surface,
        mac_preview_render_mode: MacPreviewRenderMode::HybridNv12,
    }
}

/// No script.
pub open spec fn fresh_scene() -> MotionLoomSceneView {
    MotionLoomSceneView {
        motionloom_scene_script: ""@,
        motionloom_scene_script_revision: 0,
        motionloom_scene_apply_revision: 0,
        motionloom_scene_render_mode: None,
        motionloom_scene_render_revision: 0,
    }
}

fn make_fresh_scene() -> (s: MotionLoomScene)
    ensures
        s@ == fresh_scene(),
{
    MotionLoomScene {
        motionloom_scene_script: owned(""),
        motionloom_scene_script_revision: 0,
        motionloom_scene_apply_revision: 0,
        motionloom_scene_render_mode: None,
        motionloom_scene_render_revision: 0,
    }
}

fn make_fresh_selection() -> (s: Selection)
    ensures
        s@ == SelectionView::nothing(),
{
    let s = Selection {
        selected_clip_id: None,
        selected_subtitle_id: None,
        selected_clip_ids: Vec::new(),
        selected_subtitle_ids: Vec::new(),
    };
    assert(s@.selected_clip_ids =~= seq![]);
    assert(s@.selected_subtitle_ids =~= seq![]);
    s
}

impl StateView {
    /// The state at first.
    pub open spec fn fresh(host: HostPlatform) -> StateView {
        StateView {
            timeline: TimelineView::fresh(),
            media: fresh_media(),
            media_pool_drag: None,
            media_pool_context_menu: None,
            selection: SelectionView::nothing(),
            tools: fresh_tools(host),
            export: fresh_export(),
            preview: fresh_preview(),
            scene: fresh_scene(),
            is_playing: false,
            active_tool: ActiveTool::Select,
            active_page: AppPage::Editor,
            project_file_path: None,
            undo_manager: UndoView { past: seq![], future: seq![] },
            active_local_mask_layer: 0,
            next_clip_id: 1,
            timeline_edit_token: 0,
            v1_move_mode: V1MoveMode::Magnetic,
            inspector_expanded: false,
            pending_transition: None,
            ui_notice: None,
            ai_chat_messages: seq![],
            silence_preview_modal: None,
            pending_trim_to_fit: None,
            proxies: ProxyCacheView::empty(),
            waveforms: WaveformCacheView::empty(),
            primary_av_links_repair_done: false,
        }
    }
}

impl GlobalState {
    /// The state at first, on a system.
    pub fn new(host: HostPlatform) -> (s: GlobalState)
        ensures
            s@ == StateView::fresh(host),
    {
        let s = GlobalState {
            timeline: Timeline::fresh(),
            media: make_fresh_media(),
            media_pool_drag: None,
            media_pool_context_menu: None,
            selection: make_fresh_selection(),
            tools: make_fresh_tools(host),
            export: make_fresh_export(),
            preview: make_fresh_preview(),
            scene: make_fresh_scene(),
            is_playing: false,
            active_tool: ActiveTool::Select,
            active_page: AppPage::Editor,
            project_file_path: None,
            undo_manager: UndoManager::new(),
            active_local_mask_layer: 0,
            next_clip_id: 1,
            timeline_edit_token: 0,
            v1_move_mode: V1MoveMode::Magnetic,
            inspector_expanded: false,
            pending_transition: None,
            ui_notice: None,
            ai_chat_messages: Vec::new(),
            silence_preview_modal: None,
            pending_trim_to_fit: None,
            proxies: ProxyCache::new(),
            waveforms: WaveformCache::new(),
            primary_av_links_repair_done: false,
        };
        assert(s@.ai_chat_messages =~= seq![]);
        s
    }
}

// ---------------------------------------------------------------------------
// The scene
// ---------------------------------------------------------------------------

/// The kind of rendering that a word means.
pub open spec fn render_mode(mode: Seq<char>) -> Option<Seq<char>> {
    let m = lowered(trimmed(mode));
    if m == "gpu"@ || m == "gpu_render"@ || m == "gpu_h264"@ {
        Some("gpu"@)
    } else if m == "gpu_prores"@ || m == "gpu-prores"@ || m == "prores_gpu"@ {
        Some("gpu_prores"@)
    } else if m == "compatibility_cpu"@ || m == "compatibility-cpu"@ || m == "cpu"@ || m
        == "cpu_render"@ {
        Some("compatibility_cpu"@)
    } else {
        None
    }
}

fn find_render_mode(m: &str, Ghost(mode): Ghost<Seq<char>>) -> (kind: Option<&'static str>)
    requires
        m@ == lowered(trimmed(mode)),
    ensures
        match (kind, render_mode(mode)) {
            (Some(a), Some(b)) => a@ == b,
            (None, None) => true,
            _ => false,
        },
{
    if text_is(m, "gpu") || text_is(m, "gpu_render") || text_is(m, "gpu_h264") {
        Some("gpu")
    } else if text_is(m, "gpu_prores") || text_is(m, "gpu-prores") || text_is(m, "prores_gpu") {
        Some("gpu_prores")
    } else if text_is(m, "compatibility_cpu") || text_is(m, "compatibility-cpu") || text_is(m, "cpu")
        || text_is(m, "cpu_render") {
        Some("compatibility_cpu")
    } else {
        None
    }
}

impl MotionLoomSceneView {
    /// The scene with another script, which may be applied at once.
    pub open spec fn with_script(self, script: Seq<char>, apply_now: bool) -> MotionLoomSceneView {
        let changed = self.motionloom_scene_script != script;
        MotionLoomSceneView {
            motionloom_scene_script: script,
            motionloom_scene_script_revision: if changed {
                next_number(self.motionloom_scene_script_revision)
            } else {
                self.motionloom_scene_script_revision
            },
            motionloom_scene_apply_revision: if apply_now {
                next_number(self.motionloom_scene_apply_revision)
            } else {
                self.motionloom_scene_apply_revision
            },
            ..self
        }
    }
}

fn number_after(n: u64) -> (m: u64)
    ensures
        m == next_number(n),
{
    if n < u64::MAX {
        n + 1
    } else {
        n
    }
}

impl MotionLoomScene {
    fn set_script(&mut self, script: String, apply_now: bool) -> (changed: bool)
        ensures
            final(self)@ == old(self)@.with_script(script@, apply_now),
            changed == (old(self)@.motionloom_scene_script != script@),
    {
        let changed = !text_is(self.motionloom_scene_script.as_str(), script.as_str());
        if changed {
            self.motionloom_scene_script = script;
            self.motionloom_scene_script_revision =
            number_after(self.motionloom_scene_script_revision);
        }
        if apply_now {
            self.motionloom_scene_apply_revision =
            number_after(self.motionloom_scene_apply_revision);
        }
        changed
    }
}

impl GlobalState {
    /// The script of the scene.
    pub fn motionloom_scene_script(&self) -> (text: &str)
        ensures
            text@ == self@.scene.motionloom_scene_script,
    {
        self.scene.motionloom_scene_script.as_str()
    }

    /// How often the script has changed.
    pub fn motionloom_scene_script_revision(&self) -> (n: u64)
        ensures
            n == self@.scene.motionloom_scene_script_revision,
    {
        self.scene.motionloom_scene_script_revision
    }

    /// How often the script was to be applied.
    pub fn motionloom_scene_apply_revision(&self) -> (n: u64)
        ensures
            n == self@.scene.motionloom_scene_apply_revision,
    {
        self.scene.motionloom_scene_apply_revision
    }

    /// How often the scene was to be rendered.
    pub fn motionloom_scene_render_revision(&self) -> (n: u64)
        ensures
            n == self@.scene.motionloom_scene_render_revision,
    {
        self.scene.motionloom_scene_render_revision
    }

    /// How the scene was to be rendered.
    pub fn motionloom_scene_render_mode(&self) -> (mode: Option<&str>)
        ensures
            match (mode, self@.scene.motionloom_scene_render_mode) {
                (Some(a), Some(b)) => a@ == b,
                (None, None) => true,
                _ => false,
            },
    {
        match &self.scene.motionloom_scene_render_mode {
            Some(m) => Some(m.as_str()),
            None => None,
        }
    }

    /// Changes the script of the scene. Says whether it was another one, and whether it is to
    /// be applied.
    pub fn set_motionloom_scene_script(&mut self, script: String, apply_now: bool) -> (r: (
        bool,
        bool,
    ))
        ensures
            final(self)@ == (StateView {
                scene: old(self)@.scene.with_script(script@, apply_now),
                ..old(self)@
            }),
            r.0 == (old(self)@.scene.motionloom_scene_script != script@),
            r.1 == apply_now,
    {
        let changed = self.scene.set_script(script, apply_now);
        (changed, apply_now)
    }

    /// Asks for the scene to be rendered; gives how often that was. A word that means no kind
    /// of rendering is refused.
    pub fn request_motionloom_scene_render(&mut self, mode: &str) -> (r: Result<u64, String>)
        ensures
            match render_mode(mode@) {
                Some(kind) => r == Ok::<u64, String>(
                    next_number(old(self)@.scene.motionloom_scene_render_revision),
                ) && final(self)@ == (StateView {
                    scene: MotionLoomSceneView {
                        motionloom_scene_render_mode: Some(kind),
                        motionloom_scene_render_revision: next_number(
                            old(self)@.scene.motionloom_scene_render_revision,
                        ),
                        ..old(self)@.scene
                    },
                    ..old(self)@
                }),
                None => (r matches Err(why) && why@ == "unsupported motionloom render mode `"@
                    + lowered(trimmed(mode@))
                    + "`. Use `gpu`, `gpu_prores`, or `compatibility_cpu`."@) && final(self)@
                    == old(self)@,
            },
    {
        let m = to_ascii_lowercase(trim(mode).as_str());
        match find_render_mode(m.as_str(), Ghost(mode@)) {
            Some(kind) => {
                let n = number_after(self.scene.motionloom_scene_render_revision);
                self.scene.motionloom_scene_render_mode = Some(owned(kind));
                self.scene.motionloom_scene_render_revision = n;
                Ok(n)
            },
            None => Err(
                joined3(
                    "unsupported motionloom render mode `",
                    m.as_str(),
                    "`. Use `gpu`, `gpu_prores`, or `compatibility_cpu`.",
                ),
            ),
        }
    }
}

// ---------------------------------------------------------------------------
// Tools
// ---------------------------------------------------------------------------

impl ToolStatusView {
    /// With what was found of the tools; what is missing can be shown.
    pub open spec fn with_dependencies(self, status: MediaDependencyStatusView, open_modal: bool) -> ToolStatusView {
        ToolStatusView {
            ffmpeg_path: status.ffmpeg_command,
            ffprobe_path: status.ffprobe_command,
            media_dependency: status,
            show_media_dependency_modal: self.show_media_dependency_modal || (open_modal && (
            !status.complete() || !self.gstreamer_available)),
            ..self
        }
    }

    /// With what was found of GStreamer.
    pub open spec fn with_gstreamer(self, path: Option<Seq<char>>) -> ToolStatusView {
        ToolStatusView {
            gstreamer_path: match path {
                Some(p) => p,
                None => "gst-launch-1.0"@,
            },
            gstreamer_available: path is Some,
            ..self
        }
    }
}

impl ToolStatus {
    fn apply_dependencies(&mut self, status: MediaDependencyStatus, open_modal: bool)
        ensures
            final(self)@ == old(self)@.with_dependencies(status@, open_modal),
    {
        self.ffmpeg_path = owned(status.ffmpeg_command.as_str());
        self.ffprobe_path = owned(status.ffprobe_command.as_str());
        if open_modal && (!status.all_available() || !self.gstreamer_available) {
            self.show_media_dependency_modal = true;
        }
        self.media_dependency = status;
    }

    fn apply_gstreamer(&mut self, path: Option<String>)
        ensures
            final(self)@ == old(self)@.with_gstreamer(optional(path)),
    {
        match path {
            Some(p) => {
                self.gstreamer_path = p;
                self.gstreamer_available = true;
            },
            None => {
                self.gstreamer_path = owned("gst-launch-1.0");
                self.gstreamer_available = false;
            },
        }
    }
}

/// A budget in megabytes, from 256 to 32768.
pub open spec fn budget(mb: Option<usize>) -> Option<usize> {
    match mb {
        Some(n) => Some(
            if n < 256 {
                256
            } else if n > 32768 {
                32768
            } else {
                n
            },
        ),
        None => None,
    }
}

impl GlobalState {
    /// Takes over what was found of the tools.
    pub fn apply_media_dependency_status(
        &mut self,
        status: MediaDependencyStatus,
        open_modal_if_missing: bool,
    )
        ensures
            final(self)@ == (StateView {
                tools: old(self)@.tools.with_dependencies(status@, open_modal_if_missing),
                ..old(self)@
            }),
    {
        self.tools.apply_dependencies(status, open_modal_if_missing);
    }

    /// Takes over what was found of GStreamer.
    pub fn apply_gstreamer_dependency_status(&mut self, gstreamer_cli: Option<String>)
        ensures
            final(self)@ == (StateView {
                tools: old(self)@.tools.with_gstreamer(optional(gstreamer_cli)),
                ..old(self)@
            }),
    {
        self.tools.apply_gstreamer(gstreamer_cli);
    }

    /// Hides what is missing of the tools.
    pub fn hide_media_dependency_modal(&mut self)
        ensures
            final(self)@ == (StateView {
                tools: ToolStatusView { show_media_dependency_modal: false, ..old(self)@.tools },
                ..old(self)@
            }),
    {
        self.tools.show_media_dependency_modal = false;
    }

    /// Shows what is missing of the tools.
    pub fn show_media_dependency_modal(&mut self)
        ensures
            final(self)@ == (StateView {
                tools: ToolStatusView { show_media_dependency_modal: true, ..old(self)@.tools },
                ..old(self)@
            }),
    {
        self.tools.show_media_dependency_modal = true;
    }

    /// Shows the budget of the preview.
    pub fn show_preview_memory_budget_modal(&mut self)
        ensures
            final(self)@ == (StateView {
                tools: ToolStatusView {
                    show_preview_memory_budget_modal: true,
                    ..old(self)@.tools
                },
                ..old(self)@
            }),
    {
        self.tools.show_preview_memory_budget_modal = true;
    }

    /// Hides the budget of the preview.
    pub fn hide_preview_memory_budget_modal(&mut self)
        ensures
            final(self)@ == (StateView {
                tools: ToolStatusView {
                    show_preview_memory_budget_modal: false,
                    ..old(self)@.tools
                },
                ..old(self)@
            }),
    {
        self.tools.show_preview_memory_budget_modal = false;
    }

    /// Gives the preview another budget, or none.
    pub fn set_preview_memory_budget_mb(&mut self, budget_mb: Option<usize>)
        ensures
            final(self)@ == (StateView {
                tools: ToolStatusView {
                    preview_memory_budget_mb: budget(budget_mb),
                    ..old(self)@.tools
                },
                ..old(self)@
            }),
    {
        let mb: Option<usize> = match budget_mb {
            Some(n) => if n < 256 {
                Some(256)
            } else if n > 32768 {
                Some(32768)
            } else {
                Some(n)
            },
            None => None,
        };
        self.tools.preview_memory_budget_mb = mb;
    }

    /// Whether the tools for an export are there.
    pub fn media_tools_ready_for_export(&self) -> (yes: bool)
        ensures
            yes == self@.tools.media_dependency.complete(),
    {
        self.tools.media_dependency.all_available()
    }

    /// Whether the tools for previews are there.
    pub fn media_tools_ready_for_preview_gen(&self) -> (yes: bool)
        ensures
            yes == self@.tools.media_dependency.ffmpeg_available,
    {
        self.tools.media_dependency.ffmpeg_available
    }
}

// ---------------------------------------------------------------------------
// Silence
// ---------------------------------------------------------------------------

impl SilencePreviewModalStateView {
    /// With a stretch chosen or not, the other way round.
    pub open spec fn toggled(self, i: int) -> SilencePreviewModalStateView {
        if 0 <= i < self.candidates.len() {
            SilencePreviewModalStateView {
                candidates: self.candidates.update(
                    i,
                    SilencePreviewCandidateView {
                        selected: !self.candidates[i].selected,
                        ..self.candidates[i]
                    },
                ),
                ..self
            }
        } else {
            self
        }
    }
}

impl SilencePreviewModalState {
    fn toggle(&mut self, i: usize)
        ensures
            final(self)@ == old(self)@.toggled(i as int),
    {
        if i < self.candidates.len() {
            let ghost before = self.candidates@;
            self.candidates[i].selected = !self.candidates[i].selected;
            assert(self.candidates@ =~= before.update(i as int, self.candidates@[i as int]));
        }
    }
}

/// Choosing a stretch twice changes nothing.
pub proof fn toggling_twice_changes_nothing(m: SilencePreviewModalStateView, i: int)
    ensures
        m.toggled(i).toggled(i) == m,
{
    if 0 <= i < m.candidates.len() {
        assert(m.toggled(i).toggled(i).candidates =~= m.candidates);
    }
}

/// A single-precision number as JSON. One that is not finite has no number.
pub open spec fn scalar_json(s: Scalar) -> JsonView {
    if magnitude(s.bits) < INFINITE {
        JsonView::Number(JsonNumber::Double(widened(s).bits))
    } else {
        JsonView::Null
    }
}

fn make_scalar_json(s: Scalar) -> (v: JsonValue)
    ensures
        v@ == scalar_json(s),
{
    if s.is_finite() {
        JsonValue::Number(JsonNumber::Double(widen(s).bits))
    } else {
        JsonValue::Null
    }
}

/// A silent stretch as JSON.
pub open spec fn silence_json(c: SilencePreviewCandidateView) -> JsonView {
    JsonView::Object(
        seq![
            member("start_ms"@, JsonView::Number(JsonNumber::Unsigned(c.start_ms))),
            member("end_ms"@, JsonView::Number(JsonNumber::Unsigned(c.end_ms))),
            member("confidence"@, scalar_json(c.confidence)),
            member("reason"@, JsonView::Text(c.reason)),
        ],
    )
}

/// The chosen ones of the first `n` stretches as JSON.
pub open spec fn chosen_silences(
    candidates: Seq<SilencePreviewCandidateView>,
    n: int,
) -> Seq<JsonView>
    decreases n,
{
    if n <= 0 {
        seq![]
    } else {
        let front = chosen_silences(candidates, n - 1);
        if candidates[n - 1].selected {
            front.push(silence_json(candidates[n - 1]))
        } else {
            front
        }
    }
}

/// The chosen stretches and what is to be done with them, as JSON.
pub open spec fn silence_request(chosen: Seq<JsonView>, revision: Seq<char>) -> JsonView {
    JsonView::Object(
        seq![
            member("user_selected_silence_ranges"@, JsonView::Array(chosen)),
            member("timeline_revision"@, JsonView::Text(revision)),
            member(
                "instruction"@,
                JsonView::Text(
                    "Apply ripple_delete_range for each selected range. Validate then apply."@,
                ),
            ),
        ],
    )
}

impl StateView {
    /// The chosen silent stretches as a document, if there are any.
    pub open spec fn silences_told(self) -> Option<JsonView> {
        match self.silence_preview_modal {
            Some(m) => {
                let chosen = chosen_silences(m.candidates, m.candidates.len() as int);
                if chosen.len() == 0 {
                    None
                } else {
                    Some(silence_request(chosen, m.timeline_revision))
                }
            },
            None => None,
        }
    }
}

fn make_silence_json(c: &SilencePreviewCandidate) -> (v: JsonValue)
    ensures
        v@ == silence_json(c@),
{
    let mut o: Vec<JsonMember> = Vec::new();
    assert(members(o@) =~= seq![]);
    push_member(&mut o, "start_ms", JsonValue::Number(JsonNumber::Unsigned(c.start_ms)));
    push_member(&mut o, "end_ms", JsonValue::Number(JsonNumber::Unsigned(c.end_ms)));
    push_member(&mut o, "confidence", make_scalar_json(c.confidence));
    push_member(&mut o, "reason", JsonValue::Text(owned(c.reason.as_str())));
    assert(members(o@) =~= seq![
        member("start_ms"@, JsonView::Number(JsonNumber::Unsigned(c@.start_ms))),
        member("end_ms"@, JsonView::Number(JsonNumber::Unsigned(c@.end_ms))),
        member("confidence"@, scalar_json(c@.confidence)),
        member("reason"@, JsonView::Text(c@.reason)),
    ]);
    let v = JsonValue::Object(o);
    assert(v@ == JsonView::Object(members(o@)));
    v
}

fn push_document(items: &mut Vec<JsonValue>, value: JsonValue)
    ensures
        documents(final(items)@) == documents(old(items)@).push(value@),
{
    let ghost before = items@;
    items.push(value);
    proof {
        lemma_documents(before);
        lemma_documents(items@);
        assert forall|j: int| 0 <= j < items@.len() implies #[trigger] documents(items@)[j]
            == documents(before).push(value@)[j] by {
            assert(documents(items@)[j] == items@[j]@);
            if j < before.len() {
                assert(documents(before)[j] == before[j]@);
            }
        }
        assert(documents(items@) =~= documents(before).push(value@));
    }
}

fn make_silence_request(chosen: Vec<JsonValue>, revision: &str) -> (v: JsonValue)
    ensures
        v@ == silence_request(documents(chosen@), revision@),
{
    let list = JsonValue::Array(chosen);
    assert(list@ == JsonView::Array(documents(chosen@)));
    let mut o: Vec<JsonMember> = Vec::new();
    assert(members(o@) =~= seq![]);
    push_member(&mut o, "user_selected_silence_ranges", list);
    push_member(&mut o, "timeline_revision", JsonValue::Text(owned(revision)));
    push_member(
        &mut o,
        "instruction",
        JsonValue::Text(
            owned("Apply ripple_delete_range for each selected range. Validate then apply."),
        ),
    );
    assert(members(o@) =~= seq![
        member("user_selected_silence_ranges"@, JsonView::Array(documents(chosen@))),
        member("timeline_revision"@, JsonView::Text(revision@)),
        member(
            "instruction"@,
            JsonView::Text(
                "Apply ripple_delete_range for each selected range. Validate then apply."@,
            ),
        ),
    ]);
    let v = JsonValue::Object(o);
    assert(v@ == JsonView::Object(members(o@)));
    v
}

impl GlobalState {
    /// Shows silent stretches to choose from.
    pub fn show_silence_preview_modal(&mut self, state: SilencePreviewModalState)
        ensures
            final(self)@ == (StateView { silence_preview_modal: Some(state@), ..old(self)@ }),
    {
        self.silence_preview_modal = Some(state);
    }

    /// Shows no silent stretches.
    pub fn hide_silence_preview_modal(&mut self)
        ensures
            final(self)@ == (StateView { silence_preview_modal: None, ..old(self)@ }),
    {
        self.silence_preview_modal = None;
    }

    /// Chooses a silent stretch, or does not choose it any more.
    pub fn toggle_silence_candidate(&mut self, index: usize)
        ensures
            final(self)@ == (StateView {
                silence_preview_modal: match old(self)@.silence_preview_modal {
                    Some(m) => Some(m.toggled(index as int)),
                    None => None,
                },
                ..old(self)@
            }),
    {
        let mut modal: Option<SilencePreviewModalState> = None;
        std::mem::swap(&mut modal, &mut self.silence_preview_modal);
        if let Some(m) = modal {
            let mut m = m;
            m.toggle(index);
            self.silence_preview_modal = Some(m);
        }
    }

    /// The chosen silent stretches as a document, if there are any.
    pub fn selected_silence_candidates(&self) -> (request: Option<JsonValue>)
        ensures
            optional(request) == self@.silences_told(),
    {
        let m = match &self.silence_preview_modal {
            Some(m) => m,
            None => {
                return None;
            },
        };
        let mut chosen: Vec<JsonValue> = Vec::new();
        let mut i: usize = 0;
        assert(documents(chosen@) =~= seq![]);
        while i < m.candidates.len()
            invariant
                i <= m.candidates.len(),
                documents(chosen@) == chosen_silences(m@.candidates, i as int),
            decreases m.candidates.len() - i,
        {
            if m.candidates[i].selected {
                push_document(&mut chosen, make_silence_json(&m.candidates[i]));
            }
            i += 1;
        }
        proof {
            lemma_documents(chosen@);
        }
        if chosen.len() == 0 {
            None
        } else {
            Some(make_silence_request(chosen, m.timeline_revision.as_str()))
        }
    }

    /// The chosen silent stretches as a text of one line, if there are any.
    pub fn selected_silence_candidates_json(&self) -> (text: Option<String>)
        ensures
            optional(text) == match self@.silences_told() {
                Some(request) => Some(text_in_one_line(written(request))),
                None => None,
            },
    {
        match self.selected_silence_candidates() {
            Some(request) => Some(write_in_one_line(&request)),
            None => None,
        }
    }
}

// ---------------------------------------------------------------------------
// The preview
// ---------------------------------------------------------------------------

/// A side of the canvas, from 144 to 7680.
pub open spec fn canvas_side(s: Scalar) -> Scalar {
    s.clamped(Scalar { bits: SMALLEST_SIDE }, Scalar { bits: LARGEST_SIDE })
}

/// A measured rate: no less than nothing, and nothing where it is no finite number.
pub open spec fn measured_rate(s: Scalar) -> Scalar {
    if magnitude(s.bits) < INFINITE {
        s.larger(Scalar { bits: ZERO })
    } else {
        Scalar { bits: ZERO }
    }
}

fn to_measured_rate(s: Scalar) -> (r: Scalar)
    ensures
        r == measured_rate(s),
{
    if s.is_finite() {
        s.max(Scalar { bits: ZERO })
    } else {
        Scalar { bits: ZERO }
    }
}

impl PreviewSettingsView {
    /// How smaller versions are drawn for a quality.
    pub open spec fn mode_for(self, quality: PreviewQuality) -> ProxyRenderMode {
        match quality {
            PreviewQuality::High => self.proxy_render_mode_high,
            PreviewQuality::Medium => self.proxy_render_mode_medium,
            PreviewQuality::Low => self.proxy_render_mode_low,
            PreviewQuality::Full => ProxyRenderMode::Nv12Surface,
        }
    }

    /// With the other way of drawing for a quality; full quality has only one.
    pub open spec fn mode_toggled(self, quality: PreviewQuality) -> PreviewSettingsView {
        match quality {
            PreviewQuality::High => PreviewSettingsView {
                proxy_render_mode_high: self.proxy_render_mode_high.other(),
                ..self
            },
            PreviewQuality::Medium => PreviewSettingsView {
                proxy_render_mode_medium: self.proxy_render_mode_medium.other(),
                ..self
            },
            PreviewQuality::Low => PreviewSettingsView {
                proxy_render_mode_low: self.proxy_render_mode_low.other(),
                ..self
            },
            PreviewQuality::Full => self,
        }
    }
}

impl PreviewSettings {
    fn toggle_mode(&mut self, quality: PreviewQuality) -> (mode: Option<ProxyRenderMode>)
        ensures
            final(self)@ == old(self)@.mode_toggled(quality),
            mode == if quality is Full {
                None
            } else {
                Some(final(self)@.mode_for(quality))
            },
    {
        match quality {
            PreviewQuality::High => {
                self.proxy_render_mode_high = self.proxy_render_mode_high.toggled();
                Some(self.proxy_render_mode_high)
            },
            PreviewQuality::Medium => {
                self.proxy_render_mode_medium = self.proxy_render_mode_medium.toggled();
                Some(self.proxy_render_mode_medium)
            },
            PreviewQuality::Low => {
                self.proxy_render_mode_low = self.proxy_render_mode_low.toggled();
                Some(self.proxy_render_mode_low)
            },
            PreviewQuality::Full => None,
        }
    }

    fn set_fps(&mut self, fps: u32)
        ensures
            (exists|f: PreviewFps| f.rate() == fps) ==> final(self)@ == (PreviewSettingsView {
                preview_fps: final(self)@.preview_fps,
                ..old(self)@
            }) && final(self)@.preview_fps.rate() == fps,
            !(exists|f: PreviewFps| f.rate() == fps) ==> final(self)@ == old(self)@,
    {
        if let Some(f) = PreviewFps::from_value(fps) {
            self.preview_fps = f;
        }
    }
}

impl GlobalState {
    /// Gives the canvas another size.
    pub fn set_canvas_size(&mut self, w: Scalar, h: Scalar)
        ensures
            final(self)@ == (StateView {
                preview: PreviewSettingsView {
                    canvas_w: canvas_side(w),
                    canvas_h: canvas_side(h),
                    ..old(self)@.preview
                },
                ..old(self)@
            }),
    {
        let low = Scalar { bits: SMALLEST_SIDE };
        let high = Scalar { bits: LARGEST_SIDE };
        self.preview.canvas_w = w.clamp(low, high);
        self.preview.canvas_h = h.clamp(low, high);
    }

    /// Previews at another rate, if it is one of those that are offered.
    pub fn set_preview_fps_value(&mut self, fps: u32)
        ensures
            final(self)@ == (StateView { preview: final(self)@.preview, ..old(self)@ }),
            final(self)@.preview == (PreviewSettingsView {
                preview_fps: final(self)@.preview.preview_fps,
                ..old(self)@.preview
            }),
            (exists|f: PreviewFps| f.rate() == fps) ==> final(self)@.preview.preview_fps.rate()
                == fps,
            !(exists|f: PreviewFps| f.rate() == fps) ==> final(self)@ == old(self)@,
    {
        self.preview.set_fps(fps);
    }

    /// Notes at which rate pictures come in.
    pub fn set_preview_video_input_fps(&mut self, fps: Scalar)
        ensures
            final(self)@ == (StateView {
                preview: PreviewSettingsView {
                    preview_video_input_fps: measured_rate(fps),
                    ..old(self)@.preview
                },
                ..old(self)@
            }),
    {
        self.preview.preview_video_input_fps = to_measured_rate(fps);
    }

    /// Notes at which rate pictures are shown, and how many were not.
    pub fn set_preview_present_metrics(&mut self, fps: Scalar, dropped_frames: u64)
        ensures
            final(self)@ == (StateView {
                preview: PreviewSettingsView {
                    preview_present_fps: measured_rate(fps),
                    preview_present_dropped_frames: dropped_frames,
                    ..old(self)@.preview
                },
                ..old(self)@
            }),
    {
        self.preview.preview_present_fps = to_measured_rate(fps);
        self.preview.preview_present_dropped_frames = dropped_frames;
    }

    /// How smaller versions are drawn for a quality.
    pub fn proxy_render_mode_for_quality(&self, quality: PreviewQuality) -> (mode: ProxyRenderMode)
        ensures
            mode == self@.preview.mode_for(quality),
    {
        match quality {
            PreviewQuality::High => self.preview.proxy_render_mode_high,
            PreviewQuality::Medium => self.preview.proxy_render_mode_medium,
            PreviewQuality::Low => self.preview.proxy_render_mode_low,
            PreviewQuality::Full => ProxyRenderMode::Nv12Surface,
        }
    }

    /// Draws smaller versions for a quality the other way; gives how, except for full quality.
    pub fn toggle_proxy_render_mode_for_quality(&mut self, quality: PreviewQuality) -> (mode: Option<
        ProxyRenderMode,
    >)
        ensures
            final(self)@ == (StateView {
                preview: old(self)@.preview.mode_toggled(quality),
                ..old(self)@
            }),
            mode == if quality is Full {
                None
            } else {
                Some(final(self)@.preview.mode_for(quality))
            },
    {
        self.preview.toggle_mode(quality)
    }

    /// Draws the preview the other way; gives how.
    pub fn toggle_mac_preview_render_mode(&mut self) -> (mode: MacPreviewRenderMode)
        ensures
            mode == old(self)@.preview.mac_preview_render_mode.other(),
            final(self)@ == (StateView {
                preview: PreviewSettingsView {
                    mac_preview_render_mode: mode,
                    ..old(self)@.preview
                },
                ..old(self)@
            }),
    {
        self.preview.mac_preview_render_mode = self.preview.mac_preview_render_mode.toggled();
        self.preview.mac_preview_render_mode
    }

    /// Whether the inspector is shown in full.
    pub fn inspector_panel_expanded(&self) -> (yes: bool)
        ensures
            yes == self@.inspector_expanded,
    {
        self.inspector_expanded
    }

    /// Shows the inspector in full, or not.
    pub fn set_inspector_panel_expanded(&mut self, expanded: bool)
        ensures
            final(self)@ == (StateView { inspector_expanded: expanded, ..old(self)@ }),
    {
        self.inspector_expanded = expanded;
    }

    /// How wide the inspector is.
    pub fn inspector_panel_width(&self) -> (w: Scalar)
        ensures
            w == (Scalar { bits: PANEL_WIDTH }),
    {
        Scalar { bits: PANEL_WIDTH }
    }

    /// Continues with another id; ids start at 1.
    pub fn set_next_clip_id(&mut self, id: u64)
        ensures
            final(self)@ == (StateView {
                next_clip_id: if id == 0 {
                    1
                } else {
                    id
                },
                ..old(self)@
            }),
    {
        let next: u64 = if id == 0 {
            1
        } else {
            id
        };
        self.next_clip_id = next;
    }

    /// The id of the next clip.
    pub fn next_clip_id(&self) -> (id: u64)
        ensures
            id == self@.next_clip_id,
    {
        self.next_clip_id
    }

    /// A number that changes with every edit.
    pub fn timeline_edit_token(&self) -> (n: u64)
        ensures
            n == self@.timeline_edit_token,
    {
        self.timeline_edit_token
    }

    /// Exports colours the next way.
    pub fn cycle_export_color_mode(&mut self)
        ensures
            final(self)@ == (StateView {
                export: ExportStatusView {
                    export_color_mode: old(self)@.export.export_color_mode.following(),
                    ..old(self)@.export
                },
                ..old(self)@
            }),
    {
        self.export.export_color_mode = self.export.export_color_mode.next();
    }

    /// Moves clips of the main track the other way.
    pub fn cycle_v1_move_mode(&mut self)
        ensures
            final(self)@ == (StateView {
                v1_move_mode: old(self)@.v1_move_mode.following(),
                ..old(self)@
            }),
    {
        self.v1_move_mode = self.v1_move_mode.next();
    }

    /// Whether clips of the main track stay one behind the other; the other way round while a
    /// key is held.
    pub fn effective_v1_magnetic(&self, alt_invert: bool) -> (yes: bool)
        ensures
            yes == ((self@.v1_move_mode is Magnetic) != alt_invert),
    {
        let magnetic = matches!(self.v1_move_mode, V1MoveMode::Magnetic);
        if alt_invert {
            !magnetic
        } else {
            magnetic
        }
    }

    /// The mask layer that is edited, among those that the selected clip has.
    pub fn active_local_mask_layer(&self) -> (i: usize)
        requires
            self@.timeline.lane_count() <= usize::MAX,
        ensures
            i == self@.mask_layer_at(self@.active_local_mask_layer as int),
    {
        let n = self.mask_layers();
        let last: usize = n - 1;
        if self.active_local_mask_layer < last {
            self.active_local_mask_layer
        } else {
            last
        }
    }

    /// Edits another mask layer, among those that the selected clip has.
    pub fn set_active_local_mask_layer(&mut self, layer_index: usize)
        requires
            old(self)@.timeline.lane_count() <= usize::MAX,
        ensures
            final(self)@ == (StateView {
                active_local_mask_layer: old(self)@.mask_layer_at(layer_index as int) as usize,
                ..old(self)@
            }),
    {
        let n = self.mask_layers();
        let last: usize = n - 1;
        self.active_local_mask_layer = if layer_index < last {
            layer_index
        } else {
            last
        };
    }

    fn mask_layers(&self) -> (n: usize)
        requires
            self@.timeline.lane_count() <= usize::MAX,
        ensures
            n == self@.mask_layers(),
            1 <= n,
    {
        let n: usize = match self.get_selected_clip_local_mask_layer_count() {
            Some(n) => n,
            None => 1,
        };
        if n < 1 {
            1
        } else if n > MAX_LOCAL_MASK_LAYERS {
            MAX_LOCAL_MASK_LAYERS
        } else {
            n
        }
    }
}

impl StateView {
    /// How many mask layers there are to edit.
    pub open spec fn mask_layers(self) -> int {
        let n = match self.selected_picture() {
            Some(c) => c.shown_layers().len() as int,
            None => 1,
        };
        if n < 1 {
            1
        } else if n > MAX_LOCAL_MASK_LAYERS {
            MAX_LOCAL_MASK_LAYERS as int
        } else {
            n
        }
    }

    /// The mask layer that an index means: the last where there are not so many.
    pub open spec fn mask_layer_at(self, i: int) -> int {
        least(i, self.mask_layers() - 1)
    }
}

// ---------------------------------------------------------------------------
// Exports
// ---------------------------------------------------------------------------

/// The shortest export, a thousandth of a second.
pub const SHORTEST_TOTAL: u128 = 1_000_000;

impl ExportStatusView {
    /// An export that has started.
    pub open spec fn begun(self, out_path: Seq<char>, total: int) -> ExportStatusView {
        ExportStatusView {
            export_in_progress: true,
            export_last_error: None,
            export_last_out_path: Some(out_path),
            export_progress_ratio: Scalar { bits: ZERO },
            export_progress_rendered: 0,
            export_progress_total: greatest(total, SHORTEST_TOTAL as int),
            export_eta: None,
            ..self
        }
    }

    /// An export that has come further.
    pub open spec fn advanced(
        self,
        rendered: int,
        total: int,
        ratio: Scalar,
        eta: Option<Duration>,
    ) -> ExportStatusView {
        let all = greatest(total, SHORTEST_TOTAL as int);
        ExportStatusView {
            export_progress_total: all,
            export_progress_rendered: least(rendered, all),
            export_progress_ratio: crate::masks::share(ratio),
            export_eta: eta,
            ..self
        }
    }

    /// An export that is done.
    pub open spec fn done(self) -> ExportStatusView {
        ExportStatusView {
            export_in_progress: false,
            export_progress_ratio: Scalar { bits: ONE },
            export_progress_rendered: self.export_progress_total,
            export_eta: Some(Duration { nanos: 0 }),
            ..self
        }
    }
}

/// An export never has come further than its end, and at the end it is done.
pub proof fn export_stays_within_total(
    e: ExportStatusView,
    rendered: int,
    total: int,
    ratio: Scalar,
    eta: Option<Duration>,
)
    ensures
        e.advanced(rendered, total, ratio, eta).export_progress_rendered <= e.advanced(
            rendered,
            total,
            ratio,
            eta,
        ).export_progress_total,
        e.advanced(rendered, total, ratio, eta).export_progress_total >= SHORTEST_TOTAL,
        e.done().export_progress_rendered == e.done().export_progress_total,
        !e.done().export_in_progress,
{
}

impl ExportStatus {
    fn begin(&mut self, out_path: String, total: Duration)
        ensures
            final(self)@ == old(self)@.begun(out_path@, total@),
    {
        self.export_in_progress = true;
        self.export_last_error = None;
        self.export_last_out_path = Some(out_path);
        self.export_progress_ratio = Scalar { bits: ZERO };
        self.export_progress_rendered = Duration::zero();
        self.export_progress_total = total.max(Duration { nanos: SHORTEST_TOTAL });
        self.export_eta = None;
    }

    fn advance(&mut self, rendered: Duration, total: Duration, ratio: Scalar, eta: Option<Duration>)
        ensures
            final(self)@ == old(self)@.advanced(rendered@, total@, ratio, eta),
    {
        let all = total.max(Duration { nanos: SHORTEST_TOTAL });
        self.export_progress_total = all;
        self.export_progress_rendered = rendered.min(all);
        self.export_progress_ratio = ratio.clamp(Scalar { bits: ZERO }, Scalar { bits: ONE });
        self.export_eta = eta;
    }
}

/// What is told of a failed export: the first line that says anything.
pub open spec fn failure_notice(err: Seq<char>) -> Seq<char> {
    "Export failed: "@ + match first_line(err) {
        Some(l) => l,
        None => "Export failed."@,
    }
}

impl GlobalState {
    /// Notes that an export has started.
    pub fn export_begin(&mut self, out_path: String, total_duration: Duration)
        ensures
            final(self)@ == (StateView {
                export: old(self)@.export.begun(out_path@, total_duration@),
                ..old(self)@
            }),
    {
        self.export.begin(out_path, total_duration);
    }

    /// Notes that an export has come further. The share that is done and the time that it will
    /// still take are given.
    pub fn export_update_progress(
        &mut self,
        rendered: Duration,
        total: Duration,
        ratio: Scalar,
        eta: Option<Duration>,
    )
        ensures
            final(self)@ == (StateView {
                export: old(self)@.export.advanced(rendered@, total@, ratio, eta),
                ..old(self)@
            }),
    {
        self.export.advance(rendered, total, ratio, eta);
    }

    /// Notes that an export is done.
    pub fn export_done(&mut self)
        ensures
            final(self)@ == (StateView { export: old(self)@.export.done(), ..old(self)@ }),
    {
        self.export.export_in_progress = false;
        self.export.export_progress_ratio = Scalar { bits: ONE };
        self.export.export_progress_rendered = self.export.export_progress_total;
        self.export.export_eta = Some(Duration { nanos: 0 });
    }

    /// Notes that an export failed, and tells it.
    pub fn export_fail(&mut self, err: String)
        ensures
            final(self)@ == (StateView {
                export: ExportStatusView {
                    export_in_progress: false,
                    export_last_error: Some(err@),
                    export_eta: None,
                    ..old(self)@.export
                },
                ui_notice: Some(failure_notice(err@)),
                ..old(self)@
            }),
    {
        let line = match first_non_empty_line(err.as_str()) {
            Some(l) => l,
            None => owned("Export failed."),
        };
        self.ui_notice = Some(joined("Export failed: ", line.as_str()));
        self.export.export_in_progress = false;
        self.export.export_last_error = Some(err);
        self.export.export_eta = None;
    }

    /// Notes that an export was cancelled.
    pub fn export_cancelled(&mut self)
        ensures
            final(self)@ == (StateView {
                export: ExportStatusView {
                    export_in_progress: false,
                    export_last_error: None,
                    export_last_out_path: None,
                    export_eta: None,
                    ..old(self)@.export
                },
                ..old(self)@
            }),
    {
        self.export.export_in_progress = false;
        self.export.export_last_error = None;
        self.export.export_last_out_path = None;
        self.export.export_eta = None;
    }
}

} // verus!
