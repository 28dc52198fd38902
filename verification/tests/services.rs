//! What surrounds the timeline: tools, caches, settings, recordings and requests.
use anica_core::audio_recording::{
    finish_recording, recording_file_name, unsupported_format, RecordingFormat,
};
use anica_core::background::{ProxyStatus, WaveformStatus};
use anica_core::caches::{generated_media_folder, ProxyFiles, ProxyRemoval, WaveformFiles};
use anica_core::decimals::write_exact;
use anica_core::double::{length_in, Real};
use anica_core::errors::GlobalStateError;
use anica_core::export_gpu::count_frames;
use anica_core::json::{JsonMember, JsonNumber, JsonValue};
use anica_core::json_edit::{
    get_member, get_number, get_text, merge_json_value, put_text, remove_member,
};
use anica_core::json_text::read_document;
use anica_core::json_writing::{write_in_lines, write_in_one_line};
use anica_core::layer::LayerColorBlurEffects;
use anica_core::layer_edits::LayerChannel;
use anica_core::media_paths::{
    is_image_ext, is_image_media_path, is_supported_media_path, length_after_player,
    length_after_probe, length_by_name, probe_program, sound_by_probe, MediaLength,
};
use anica_core::media_tools::{
    after_bootstrap, auto_bootstrap_enabled, extract_bootstrap_error_reason, ffprobe_candidates,
    ffprobe_from_ffmpeg, first_non_empty_line, gstreamer_candidates, looks_like_path, push_unique,
    runtime_strict_pinned_enabled, should_bootstrap, system_media_fallback_enabled,
    tool_candidates, HostPlatform, MediaBootstrapError, MediaDependencyStatus, ToolPlaces,
};
use anica_core::modes::{
    ExportColorMode, MacPreviewRenderMode, PreviewFps, PreviewQuality, ProxyRenderMode,
    V1MoveMode,
};
use anica_core::placing::make_clip;
use anica_core::rounding::widen;
use anica_core::runtime_settings::{
    put_in_front, runtime_settings, RuntimeFiles, SettingValue, SettingWay, ToolFiles,
};
use anica_core::scalar::Scalar;
use anica_core::semantic::{
    normalize_semantic_asset_mode, semantic_duration_sec, semantic_provider_needs_video_1280x720,
    validate_semantic_prompt_schema,
};
use anica_core::state::{GlobalState, SilencePreviewCandidate, SilencePreviewModalState};
use anica_core::time::Duration;
use anica_core::tool_places::{
    bundle_places, common_gstreamer_places, home_places, program_file_name, setup_command_args,
    setup_script_name, usual_tools_home, workspace_places, HomeBase, Place,
};
use anica_core::time_ranges::{merge_time_ranges, remap_time_after_removed_ranges, TimeRange};

fn s(n: u64) -> Duration {
    Duration::from_secs(n)
}

fn num(x: f32) -> Scalar {
    Scalar::from_bits(x.to_bits())
}

fn state() -> GlobalState {
    GlobalState::new(HostPlatform::Linux)
}

fn text(t: &str) -> JsonValue {
    JsonValue::Text(t.to_string())
}

fn object(members: Vec<(&str, JsonValue)>) -> JsonValue {
    JsonValue::Object(
        members
            .into_iter()
            .map(|(k, value)| JsonMember { key: k.to_string(), value })
            .collect(),
    )
}

fn entries(v: &JsonValue) -> &Vec<JsonMember> {
    match v {
        JsonValue::Object(o) => o,
        other => panic!("{other:?}"),
    }
}

fn concat_text(parts: &[&str]) -> String {
    parts.concat()
}

fn same(a: &JsonValue, b: &JsonValue) -> bool {
    format!("{a:?}") == format!("{b:?}")
}

#[test]
fn numbers_are_ordered_as_they_are() {
    let values = [
        f32::NEG_INFINITY, -2.5, -1.0, -1.0e-40, -0.0, 0.0, 1.0e-40, 0.5, 1.0, 3.4e38,
        f32::INFINITY, f32::NAN,
    ];
    for a in values {
        for b in values {
            assert_eq!(num(a).lt(num(b)), a < b, "{a} {b}");
            assert_eq!(num(a).le(num(b)), a <= b, "{a} {b}");
            let (x, y) = (a as f64, b as f64);
            assert_eq!(Real { bits: x.to_bits() }.lt(Real { bits: y.to_bits() }), x < y);
        }
        assert_eq!(num(a).is_nan(), a.is_nan());
        assert_eq!(num(a).is_finite(), a.is_finite());
        assert_eq!(num(a).abs().bits, a.abs().to_bits());
        if !a.is_nan() {
            assert_eq!(num(a).double().bits, (a * 2.0).to_bits(), "{a}");
            assert_eq!(num(a).clamp(num(-1.0), num(1.0)).bits, a.clamp(-1.0, 1.0).to_bits());
        }
    }
}

#[test]
fn ranges_are_merged_and_closed() {
    let r = |a, b| TimeRange { start: s(a), end: s(b) };
    let merged = merge_time_ranges(vec![r(5, 7), r(1, 3), r(2, 4), r(9, 9), r(7, 8)]);
    assert_eq!(merged, vec![r(1, 4), r(5, 8)]);
    assert_eq!(remap_time_after_removed_ranges(s(0), &merged), s(0));
    assert_eq!(remap_time_after_removed_ranges(s(2), &merged), s(1));
    assert_eq!(remap_time_after_removed_ranges(s(4), &merged), s(1));
    assert_eq!(remap_time_after_removed_ranges(s(10), &merged), s(4));
}

#[test]
fn media_is_told_by_its_name() {
    assert!(is_supported_media_path("/a/Film.MP4"));
    assert!(is_supported_media_path("/a/SOUND.Wav"));
    assert!(!is_supported_media_path("/a/text.txt"));
    assert!(!is_supported_media_path("/a.mp4/noext"));
    assert!(is_image_media_path("/a/p.PNG"));
    assert!(is_image_ext("/a/p.JpEg"));
    assert!(!is_image_ext("/a/p.mp4"));
    assert!(matches!(length_by_name("/p.png"), MediaLength::Known(d) if d == s(5)));
    assert!(matches!(length_by_name("/p.mp4"), MediaLength::AskProbe));
    assert!(matches!(length_after_probe("/p.mp4", Some(s(9))), MediaLength::Known(d) if d == s(9)));
    match length_after_probe("/a b.mp4", None) {
        MediaLength::AskPlayer(url) => assert_eq!(url, "file:///a%20b.mp4"),
        other => panic!("{other:?}"),
    }
    match length_after_probe("/Été #1/{a}%.mp4", None) {
        MediaLength::AskPlayer(url) => {
            assert_eq!(url, "file:///%C3%89t%C3%A9%20%231/%7Ba%7D%25.mp4");
        }
        other => panic!("{other:?}"),
    }
    match length_after_probe("/media/b-1/c.mp4", None) {
        MediaLength::AskPlayer(url) => assert_eq!(url, "file:///media/b-1/c.mp4"),
        other => panic!("{other:?}"),
    }
    match length_after_probe("/media/../c.mp4", None) {
        MediaLength::AskPlayer(url) => assert_eq!(url, "file:///media/../c.mp4"),
        other => panic!("{other:?}"),
    }
    assert!(matches!(length_after_probe("rel.mp4", None), MediaLength::Known(d) if d == s(5)));
    assert_eq!(length_after_player(Some(s(3))), s(3));
    assert!(!sound_by_probe("/p.png", true));
    assert!(sound_by_probe("/p.mp4", true));
    assert!(!sound_by_probe("/p.mp4", false));
    assert_eq!(probe_program(Some("/x/ffprobe"), Some("/y/ffprobe")), "/x/ffprobe");
    assert_eq!(probe_program(None, Some("/y/ffprobe")), "/y/ffprobe");
    assert_eq!(probe_program(None, None), "ffprobe");
}

#[test]
fn clip_colours_are_brought_into_range() {
    let mut c = make_clip(1, "c".into(), &"/a.mp4".to_string(), s(0), s(1), None);
    c.set_brightness(num(-3.0));
    c.set_contrast(num(0.5));
    c.set_blur_sigma(num(900.0));
    let e = c.base_color_blur_effects();
    assert_eq!((e.brightness, e.contrast), (num(-1.0), num(0.5)));
    assert_eq!((e.saturation, e.blur_sigma), (num(1.0), num(64.0)));
}

#[test]
fn frames_of_endless_lengths_can_be_counted() {
    assert_eq!(count_frames(Duration { nanos: u128::MAX }, 144), u64::MAX);
    assert_eq!(count_frames(s(0), 30), 1);
}

#[test]
fn platforms_and_their_commands() {
    assert_eq!(HostPlatform::from_os("macos"), HostPlatform::MacOS);
    assert_eq!(HostPlatform::from_os("windows"), HostPlatform::Windows);
    assert_eq!(HostPlatform::from_os("linux"), HostPlatform::Linux);
    assert_eq!(HostPlatform::from_os("plan9"), HostPlatform::Other);
    assert_eq!(HostPlatform::MacOS.label(), "macOS");
    assert_eq!(HostPlatform::Linux.install_commands().len(), 3);
    assert_eq!(HostPlatform::MacOS.install_commands()[0].1, "brew install ffmpeg");
    assert!(HostPlatform::Other.gstreamer_install_commands().is_empty());
}

#[test]
fn tools_that_answer_are_taken() {
    let mut d = MediaDependencyStatus::new(HostPlatform::Linux);
    assert_eq!(d.missing_tools(), vec!["ffmpeg", "ffprobe"]);
    let places = vec!["/a/ffmpeg".to_string(), "/b/ffmpeg".to_string()];
    d.note_ffmpeg(&places, &vec![None, None]);
    assert_eq!(d.ffmpeg_command, "/a/ffmpeg");
    assert!(!d.ffmpeg_available);
    assert!(should_bootstrap(&d, true, false));
    assert!(!should_bootstrap(&d, true, true));
    d.note_ffmpeg(&places, &vec![None, Some("ffmpeg version 7".to_string())]);
    assert_eq!(d.ffmpeg_command, "/b/ffmpeg");
    assert_eq!(d.missing_tools(), vec!["ffprobe"]);
    d.note_ffprobe(&vec!["p".to_string()], &vec![Some("7".to_string())]);
    assert!(d.all_available());
    assert!(!should_bootstrap(&d, true, false));
    let kept = after_bootstrap(
        MediaDependencyStatus::new(HostPlatform::MacOS),
        MediaDependencyStatus::new(HostPlatform::Linux),
        true,
    );
    assert_eq!(kept.host, HostPlatform::MacOS);
}

#[test]
fn places_are_tried_in_turn_and_once() {
    let o = |t: &str| Some(t.to_string());
    let places = ToolPlaces {
        preferred: o("  /p "),
        from_env: o("/e"),
        workspace: o("/p"),
        configured: None,
        usual: o("/u"),
        bundled: o("/b"),
    };
    assert_eq!(tool_candidates(&places, true), vec!["/p", "/e", "/b"]);
    assert_eq!(tool_candidates(&places, false), vec!["/p", "/e", "/u", "/b"]);
    let common = vec!["/usr/bin/gst-launch-1.0".to_string(), "/e".to_string()];
    assert_eq!(
        gstreamer_candidates(&places, true, &common, "gst-launch-1.0", true),
        vec!["/p", "/e", "/b", "/usr/bin/gst-launch-1.0", "gst-launch-1.0"]
    );
    assert_eq!(ffprobe_candidates(&o("/a"), &o("/a"), &o(" ")), vec!["/a"]);
    let mut list = vec!["x".to_string()];
    push_unique(&mut list, "x");
    push_unique(&mut list, "  ");
    push_unique(&mut list, "y");
    assert_eq!(list, vec!["x", "y"]);
    assert!(looks_like_path("a/b"));
    assert!(looks_like_path("C:\\b"));
    assert!(looks_like_path("b.exe"));
    assert!(!looks_like_path("ffmpeg"));
    assert_eq!(ffprobe_from_ffmpeg("/opt/FFmpeg"), "/opt/ffprobe");
    assert_eq!(ffprobe_from_ffmpeg("/opt/ffmpeg.exe"), "/opt/ffprobe.exe");
    assert_eq!(ffprobe_from_ffmpeg("/ffmpeg"), "/ffprobe");
    assert_eq!(ffprobe_from_ffmpeg("/My Tools/bin/ffmpeg"), "/My Tools/bin/ffprobe");
    assert_eq!(ffprobe_from_ffmpeg("tools/ffmpeg"), "tools/ffprobe");
    assert_eq!(ffprobe_from_ffmpeg("ffmpeg"), "ffprobe");
    assert_eq!(ffprobe_from_ffmpeg("avconv"), "ffprobe");
}

#[test]
fn flags_turn_things_on_and_off() {
    let o = |t: &str| Some(t.to_string());
    assert!(auto_bootstrap_enabled(&None, &None));
    assert!(!auto_bootstrap_enabled(&o(" OFF "), &None));
    assert!(!auto_bootstrap_enabled(&None, &o("Yes")));
    assert!(runtime_strict_pinned_enabled(&None));
    assert!(!runtime_strict_pinned_enabled(&o("0")));
    assert!(system_media_fallback_enabled(&o("no"), &None));
    assert!(!system_media_fallback_enabled(&None, &None));
    assert!(system_media_fallback_enabled(&None, &o("1")));
}

#[test]
fn bootstrap_failures_are_told() {
    assert_eq!(first_non_empty_line("\n  \n one \ntwo").as_deref(), Some("one"));
    assert_eq!(first_non_empty_line(" \n"), None);
    assert_eq!(extract_bootstrap_error_reason("", ""), "unknown bootstrap error");
    assert_eq!(extract_bootstrap_error_reason("", "\nout\n"), "out");
    assert_eq!(
        extract_bootstrap_error_reason("a\nError: x\nb\nc\nd\ne\n", ""),
        "Error: x | stderr: b | c | d | e"
    );
    assert_eq!(
        extract_bootstrap_error_reason("warning: failed\nlast", ""),
        "last | stderr: warning: failed"
    );
    let t = |x: &str| x.to_string();
    assert_eq!(
        MediaBootstrapError::LaunchBootstrapScript { source: t("io") }.message(),
        "Failed to launch bootstrap script: io"
    );
    assert_eq!(
        MediaBootstrapError::BootstrapScriptFailed { status: t("1"), reason: t("r") }.message(),
        "Bootstrap script failed (status 1): r"
    );
    assert_eq!(
        MediaBootstrapError::BootstrapScriptNotFound { path: t("/s") }.message(),
        "Bootstrap script not found: /s"
    );
    assert_eq!(
        MediaBootstrapError::WindowsBootstrapFailed { details: t("d") }.message(),
        "Windows bootstrap failed via pwsh/powershell. d"
    );
    assert_eq!(
        MediaBootstrapError::UnsupportedHostPlatform.message(),
        "Unsupported host platform for runtime bootstrap."
    );
}

#[test]
fn recordings_last_as_long_as_their_samples() {
    let f = RecordingFormat::new(2, 48000);
    assert_eq!(f.recording_length(96000 * 3, s(9)), s(3));
    assert_eq!(f.recording_length(96000 * 3, s(9)), f.recording_length(96000 * 3, s(1)));
    assert_eq!(recording_file_name(12), "voice_recording_12.wav");
    assert_eq!(unsupported_format("I8"), "Unsupported microphone sample format: I8");
    let r = finish_recording("/r.wav".into(), Some("mic".into()), f, 0, s(4));
    assert_eq!(r.path, "/r.wav");
    assert_eq!(r.device_name.as_deref(), Some("mic"));
    assert!(r.duration >= Duration::from_millis(1));
}

#[test]
fn proxies_are_asked_made_and_found() {
    let mut g = state();
    let files = |dst_exists, entry_exists| ProxyFiles {
        key: "k".into(),
        src_path: "/a.mp4".into(),
        dst_path: "/c/k.mp4".into(),
        source_exists: true,
        dst_exists,
        entry_exists,
    };
    let mut gone = files(false, false);
    gone.source_exists = false;
    assert_eq!(g.ensure_proxy_for_path(&gone, 720).status, ProxyStatus::Failed);
    assert_eq!(g.ensure_proxy_for_path(&files(false, false), 720).status, ProxyStatus::Pending);
    assert_eq!(g.ensure_proxy_for_path(&files(false, false), 720).status, ProxyStatus::Pending);
    assert_eq!(g.proxies.queue.len(), 1);
    let job = g.take_next_proxy_job().unwrap();
    assert_eq!((job.key.as_str(), job.max_dim), ("k", 720));
    assert!(g.take_next_proxy_job().is_none());
    assert!(matches!(g.proxies.remove("k", "/c/k.mp4"), ProxyRemoval::Blocked));
    g.finish_proxy_job("k", ProxyStatus::Ready, None);
    let found = g.ensure_proxy_for_path(&files(true, true), 720);
    assert_eq!(found.status, ProxyStatus::Ready);
    assert_eq!(found.path.as_deref(), Some("/c/k.mp4"));
    assert_eq!(g.lookup_proxy_for_path(&files(true, true)).status, ProxyStatus::Ready);
    assert_eq!(g.proxy_entry_path("k").as_deref(), Some("/c/k.mp4"));
    match g.proxies.remove("k", "/c/k.mp4") {
        ProxyRemoval::Delete { removed_jobs, path } => {
            assert_eq!((removed_jobs, path.as_str()), (0, "/c/k.mp4"));
        }
        other => panic!("{other:?}"),
    }
    assert!(g.proxy_entry_path("k").is_none());
    g.ensure_proxy_for_path(&files(false, false), 480);
    let (paths, removed, blocked) = g.proxies.remove_all();
    assert_eq!((removed, blocked), (1, 0));
    assert!(paths.len() <= 1);
    assert!(g.take_next_proxy_job().is_none());
}

#[test]
fn waveforms_are_asked_made_and_found() {
    let mut g = state();
    let files = WaveformFiles {
        key: "w".into(),
        src_path: "/a.wav".into(),
        dst_path: "/c/w.bin".into(),
        source_exists: true,
        dst_peaks: None,
        entry_peaks: None,
    };
    assert_eq!(g.ensure_waveform_for_path(&files, 64).status, WaveformStatus::Pending);
    let job = g.take_next_waveform_job().unwrap();
    assert_eq!((job.key.as_str(), job.bucket_count), ("w", 64));
    g.finish_waveform_job("w", WaveformStatus::Ready, None, Some(vec![num(0.5)]));
    let found = g.lookup_waveform_for_path("/a.wav", true, "w", 64);
    assert_eq!(found.status, WaveformStatus::Ready);
    assert_eq!(found.peaks, Some(vec![num(0.5)]));
    assert_eq!(g.waveform_entry_path("w").as_deref(), Some("/c/w.bin"));
    assert_eq!(g.lookup_waveform_for_path("/a.wav", true, "v", 64).status, WaveformStatus::Missing);
    g.set_project_file_path(Some("/p.json".into()));
    assert!(g.waveform_entry_path("w").is_none());
    assert_eq!(generated_media_folder("image"), "images_generated");
    assert_eq!(generated_media_folder("anything"), "videos_generated");
}

#[test]
fn scene_renders_are_requested_by_mode() {
    let mut g = state();
    assert_eq!(g.set_motionloom_scene_script("a".into(), true), (true, true));
    assert_eq!(g.set_motionloom_scene_script("a".into(), false), (false, false));
    assert_eq!(g.motionloom_scene_script(), "a");
    assert_eq!(g.motionloom_scene_script_revision(), 1);
    assert_eq!(g.motionloom_scene_apply_revision(), 1);
    assert_eq!(g.request_motionloom_scene_render(" GPU_H264 "), Ok(1));
    assert_eq!(g.motionloom_scene_render_mode(), Some("gpu"));
    assert_eq!(g.request_motionloom_scene_render("prores_gpu"), Ok(2));
    assert_eq!(g.request_motionloom_scene_render("cpu"), Ok(3));
    assert_eq!(
        g.request_motionloom_scene_render("X"),
        Err("unsupported motionloom render mode `x`. Use `gpu`, `gpu_prores`, or `compatibility_cpu`.".to_string())
    );
    assert_eq!(g.motionloom_scene_render_revision(), 3);
}

#[test]
fn tool_status_opens_its_window() {
    let mut g = state();
    g.apply_media_dependency_status(MediaDependencyStatus::new(HostPlatform::Linux), false);
    assert!(!g.tools.show_media_dependency_modal);
    g.apply_media_dependency_status(MediaDependencyStatus::new(HostPlatform::Linux), true);
    assert!(g.tools.show_media_dependency_modal);
    g.hide_media_dependency_modal();
    assert!(!g.tools.show_media_dependency_modal);
    g.apply_gstreamer_dependency_status(Some("/g".into()));
    assert_eq!(g.tools.gstreamer_path, "/g");
    g.apply_gstreamer_dependency_status(None);
    assert_eq!(g.tools.gstreamer_path, "gst-launch-1.0");
    assert!(!g.media_tools_ready_for_export());
    g.set_preview_memory_budget_mb(Some(1));
    assert_eq!(g.tools.preview_memory_budget_mb, Some(256));
    g.set_preview_memory_budget_mb(Some(1_000_000));
    assert_eq!(g.tools.preview_memory_budget_mb, Some(32768));
    g.set_preview_memory_budget_mb(None);
    assert_eq!(g.tools.preview_memory_budget_mb, None);
}

#[test]
fn preview_settings_stay_in_range() {
    let mut g = state();
    g.set_canvas_size(num(1.0), num(99999.0));
    assert_eq!((g.preview.canvas_w, g.preview.canvas_h), (num(144.0), num(7680.0)));
    g.set_preview_fps_value(60);
    assert_eq!(g.preview.preview_fps, PreviewFps::Fps60);
    g.set_preview_fps_value(61);
    assert_eq!(g.preview.preview_fps, PreviewFps::Fps60);
    g.set_preview_video_input_fps(num(f32::NAN));
    assert_eq!(g.preview.preview_video_input_fps, num(0.0));
    g.set_preview_present_metrics(num(29.5), 7);
    assert_eq!(g.preview.preview_present_fps, num(29.5));
    assert_eq!(g.preview.preview_present_dropped_frames, 7);
    assert_eq!(g.toggle_proxy_render_mode_for_quality(PreviewQuality::Full), None);
    assert_eq!(
        g.proxy_render_mode_for_quality(PreviewQuality::Full),
        ProxyRenderMode::Nv12Surface
    );
    let before = g.proxy_render_mode_for_quality(PreviewQuality::Low);
    let once = g.toggle_proxy_render_mode_for_quality(PreviewQuality::Low).unwrap();
    assert_ne!(before, once);
    assert_eq!(g.toggle_proxy_render_mode_for_quality(PreviewQuality::Low), Some(before));
    let mac = g.preview.mac_preview_render_mode;
    assert_ne!(g.toggle_mac_preview_render_mode(), mac);
    assert_eq!(g.toggle_mac_preview_render_mode(), mac);
    assert_eq!(MacPreviewRenderMode::HybridNv12.toggled(), MacPreviewRenderMode::FullBgra);
    assert_eq!(g.inspector_panel_width(), num(360.0));
    let mode = g.export.export_color_mode;
    for _ in 0..3 {
        g.cycle_export_color_mode();
    }
    assert_eq!(g.export.export_color_mode, mode);
    assert_eq!(ExportColorMode::Fast.next(), ExportColorMode::Hybrid);
    let magnetic = g.effective_v1_magnetic(false);
    assert_eq!(g.effective_v1_magnetic(true), !magnetic);
    g.cycle_v1_move_mode();
    assert_eq!(g.effective_v1_magnetic(false), !magnetic);
    assert_eq!(V1MoveMode::Free.next(), V1MoveMode::Magnetic);
    g.set_next_clip_id(40);
    assert_eq!(g.next_clip_id(), 40);
}

#[test]
fn silences_are_chosen_and_told() {
    let mut g = state();
    assert!(g.selected_silence_candidates_json().is_none());
    let c = |a, selected| SilencePreviewCandidate {
        start_ms: a,
        end_ms: a + 10,
        confidence: num(0.5),
        reason: "quiet".into(),
        selected,
    };
    g.show_silence_preview_modal(SilencePreviewModalState {
        candidates: vec![c(100, true), c(200, false)],
        timeline_revision: "r7".into(),
    });
    g.toggle_silence_candidate(0);
    g.toggle_silence_candidate(1);
    g.toggle_silence_candidate(9);
    let half = || JsonValue::Number(JsonNumber::Double(0.5f64.to_bits()));
    let told = g.selected_silence_candidates().unwrap();
    let wanted = object(vec![
        (
            "user_selected_silence_ranges",
            JsonValue::Array(vec![object(vec![
                ("start_ms", JsonValue::Number(JsonNumber::Unsigned(200))),
                ("end_ms", JsonValue::Number(JsonNumber::Unsigned(210))),
                ("confidence", half()),
                ("reason", text("quiet")),
            ])]),
        ),
        ("timeline_revision", text("r7")),
        (
            "instruction",
            text("Apply ripple_delete_range for each selected range. Validate then apply."),
        ),
    ]);
    assert!(same(&told, &wanted), "{told:?}");
    g.hide_silence_preview_modal();
    assert!(g.silence_preview_modal.is_none());
}

#[test]
fn export_status_goes_from_begin_to_end() {
    let mut g = state();
    g.export_begin("/o.mp4".into(), s(0));
    assert!(g.export.export_in_progress);
    assert_eq!(g.export.export_progress_total, Duration::from_millis(1));
    g.export_update_progress(s(9), s(4), num(0.5), Some(s(2)));
    assert_eq!(g.export.export_progress_rendered, s(4));
    assert_eq!(g.export.export_eta, Some(s(2)));
    g.export_done();
    assert_eq!(g.export.export_progress_ratio, num(1.0));
    assert_eq!(g.export.export_eta, Some(s(0)));
    g.export_fail("\n  bad thing \nmore".into());
    assert_eq!(g.ui_notice.as_deref(), Some("Export failed: bad thing"));
    assert_eq!(g.export.export_last_error.as_deref(), Some("\n  bad thing \nmore"));
    g.export_fail(" ".into());
    assert_eq!(g.ui_notice.as_deref(), Some("Export failed: Export failed."));
    g.export_cancelled();
    assert!(g.export.export_last_out_path.is_none());
    assert!(!g.export.export_in_progress);
}

#[test]
fn documents_are_merged_member_by_member() {
    let base = object(vec![
        ("a", text("1")),
        ("b", object(vec![("x", text("2")), ("y", text("3"))])),
    ]);
    let over = object(vec![
        ("b", object(vec![("y", text("4")), ("z", text("5"))])),
        ("c", JsonValue::Null),
    ]);
    let out = merge_json_value(base, &over);
    let wanted = object(vec![
        ("a", text("1")),
        ("b", object(vec![("x", text("2")), ("y", text("4")), ("z", text("5"))])),
        ("c", JsonValue::Null),
    ]);
    assert!(same(&out, &wanted), "{out:?}");
    assert!(same(&merge_json_value(text("a"), &over), &over));
    let mut o = vec![];
    put_text(&mut o, "k", "v");
    put_text(&mut o, "k", "w");
    assert_eq!(get_text(&o, "k").as_deref(), Some("w"));
    assert_eq!(get_number(&o, "k"), None);
    remove_member(&mut o, "k");
    assert!(get_member(&o, "k").is_none());
}

#[test]
fn marked_stretches_carry_their_request() {
    let mut g = state();
    assert!(!g.commit_semantic_segment_at_playhead());
    assert_eq!(g.ui_notice.as_deref(), Some("No semantic start mark. Press J first."));
    g.timeline.playhead = s(3);
    g.mark_semantic_start_at_playhead();
    g.timeline.playhead = Duration::from_millis(1500);
    assert!(g.commit_semantic_segment_at_playhead());
    assert_eq!(g.ui_notice.as_deref(), Some("Semantic segment added: 1.50s -> 3.00s"));
    let c = &g.semantic_clips()[0];
    assert_eq!((c.start, c.duration), (Duration::from_millis(1500), Duration::from_millis(1500)));
    assert_eq!(g.get_selected_semantic_label().as_deref(), Some("semantic"));
    assert_eq!(g.get_selected_semantic_type().as_deref(), Some("content_support"));
    assert_eq!(
        g.get_selected_semantic_duration_sec(),
        Some(JsonNumber::Double(1.5f64.to_bits()))
    );
    assert_eq!(semantic_duration_sec(s(2)), JsonNumber::Double(2.0f64.to_bits()));
    let schema = g.get_selected_semantic_schema().unwrap();
    assert_eq!(
        get_text(entries(&schema), "shot_id").unwrap(),
        format!("semantic-{}", g.semantic_clips()[0].id)
    );
    assert_eq!(get_text(entries(&schema), "provider").as_deref(), Some("veo_3_1"));
    let id = g.semantic_clips()[0].id;
    assert!(g.resize_semantic_clip(id, s(0)));
    assert_eq!(g.semantic_clips()[0].duration, Duration::from_millis(1));
    assert!(g.move_semantic_clip(id, s(8)));
    assert_eq!(g.semantic_clips()[0].start, s(8));
    assert!(!g.move_semantic_clip(id + 100, s(8)));
    assert!(g.duplicate_semantic_clip_after(id));
    assert_eq!(g.semantic_clips()[1].start, Duration::from_millis(8001));
    assert!(g.remove_selected_semantic_clip());
    assert_eq!(g.semantic_clips().len(), 1);
    assert!(!g.remove_selected_semantic_clip());
}

#[test]
fn requests_are_edited() {
    let mut g = state();
    assert!(g.insert_semantic_clip(s(1), s(2), "  ".into(), "cat".into(), None));
    let id = g.semantic_clips()[0].id;
    g.select_semantic_clip(id);
    assert_eq!(g.get_selected_semantic_type().as_deref(), Some("content_support"));
    assert_eq!(g.get_selected_semantic_prompt_text().as_deref(), Some("cat"));
    g.set_selected_semantic_asset_mode("IMAGE".into());
    assert_eq!(g.get_selected_semantic_asset_mode().as_deref(), Some("image"));
    g.set_selected_semantic_prompt_text("a dog".into());
    assert_eq!(g.get_selected_semantic_prompt_text().as_deref(), Some("a dog"));
    g.set_selected_semantic_model(" GPT-Image-1 ".into());
    assert_eq!(g.get_selected_semantic_model().as_deref(), Some("gpt-image-1"));
    g.set_selected_semantic_model("veo_3_1".into());
    assert_eq!(g.get_selected_semantic_asset_mode().as_deref(), Some("video"));
    g.set_selected_semantic_label("note".into());
    assert_eq!(g.get_selected_semantic_label().as_deref(), Some("note"));
    g.clear_semantic_clip_selection();
    assert_eq!(g.get_selected_semantic_label(), None);
    assert_eq!(normalize_semantic_asset_mode(" Image "), "image");
    assert_eq!(normalize_semantic_asset_mode("?"), "video");
    assert!(semantic_provider_needs_video_1280x720("sora-2", "video")
        || !semantic_provider_needs_video_1280x720("sora-2", "image"));
}

#[test]
fn requests_from_outside_are_checked() {
    let mut g = state();
    assert!(matches!(
        g.set_selected_semantic_schema(Ok(object(vec![]))),
        Err(GlobalStateError::NoSemanticClipSelected)
    ));
    g.insert_semantic_clip(s(1), s(2), "t".into(), "l".into(), None);
    let id = g.semantic_clips()[0].id;
    g.select_semantic_clip(id);
    let e = g.set_selected_semantic_schema(Err("line 3".into())).unwrap_err();
    assert_eq!(e.message(), "Invalid JSON schema: line 3");
    let with = |v| object(vec![("duration_sec", v)]);
    assert!(matches!(
        g.set_selected_semantic_schema(Ok(with(text("4")))),
        Err(GlobalStateError::InvalidSemanticDurationType)
    ));
    for bad in [
        JsonNumber::Unsigned(0),
        JsonNumber::Negative(-3),
        JsonNumber::Double(0.0f64.to_bits()),
        JsonNumber::Double((-1.0f64).to_bits()),
    ] {
        assert!(matches!(
            g.set_selected_semantic_schema(Ok(with(JsonValue::Number(bad)))),
            Err(GlobalStateError::InvalidSemanticDurationValue)
        ));
    }
    let four = JsonValue::Number(JsonNumber::Unsigned(4));
    assert!(g.set_selected_semantic_schema(Ok(with(four))).is_ok());
    assert_eq!(g.semantic_clips()[0].duration, s(4));
    let short = JsonValue::Number(JsonNumber::Double(0.0005f64.to_bits()));
    assert!(g.set_selected_semantic_schema(Ok(with(short))).is_ok());
    assert_eq!(g.semantic_clips()[0].duration, Duration::from_millis(1));
    g.timeline.selected_semantic_clip_id = Some(999);
    assert!(matches!(
        g.set_selected_semantic_schema(Ok(object(vec![]))),
        Err(GlobalStateError::SelectedSemanticClipMissing)
    ));
    let mut c = g.semantic_clips()[0].clone();
    let differ = |_: JsonNumber, _: Duration| Some(("9.00".to_string(), "4.00".to_string()));
    let v = validate_semantic_prompt_schema(&c, differ);
    assert!(v.is_ok());
    assert_eq!(v.warnings, vec!["duration_sec (9.00) was out of sync; expected 4.00s."]);
    c.prompt_schema = JsonValue::Null;
    let v = validate_semantic_prompt_schema(&c, |_, _| None);
    assert_eq!(v.errors, vec!["Semantic prompt schema must be a JSON object."]);
    g.normalize_all_semantic_prompt_schemas();
}

#[test]
fn requests_are_read_from_texts() {
    let mut g = state();
    assert!(matches!(
        g.set_selected_semantic_schema_json("{".into()),
        Err(GlobalStateError::NoSemanticClipSelected)
    ));
    g.insert_semantic_clip(s(1), s(2), "t".into(), "l".into(), None);
    let id = g.semantic_clips()[0].id;
    g.select_semantic_clip(id);
    let e = g.set_selected_semantic_schema_json(" {\"a\": 1,} ".into()).unwrap_err();
    assert_eq!(e.message(), "Invalid JSON schema: trailing comma at line 1 column 9");
    let e = g.set_selected_semantic_schema_json(" ".into()).unwrap_err();
    assert_eq!(
        e.message(),
        "Invalid JSON schema: EOF while parsing a value at line 1 column 0"
    );
    for (bad, wanted) in [
        ("{\"duration_sec\": \"4\"}", "duration_sec must be a number (seconds)."),
        ("{\"duration_sec\": null}", "duration_sec must be a number (seconds)."),
        ("{\"duration_sec\": 0}", "duration_sec must be > 0."),
        ("{\"duration_sec\": -0.5}", "duration_sec must be > 0."),
        ("{\"duration_sec\": 1e300}", "duration_sec must be > 0."),
    ] {
        let e = g.set_selected_semantic_schema_json(bad.into()).unwrap_err();
        assert_eq!(e.message(), wanted, "{bad}");
        assert_eq!(g.semantic_clips()[0].duration, s(2));
    }
    let text = "\n {\"semantic_goal\": \" cats \", \"duration_sec\": 2.5, \"tags\": [1, true, null]}\t";
    assert!(g.set_selected_semantic_schema_json(text.into()).is_ok());
    assert_eq!(g.semantic_clips()[0].duration, Duration::from_millis(2500));
    assert_eq!(g.get_selected_semantic_type().as_deref(), Some("cats"));
    let schema = g.get_selected_semantic_schema().unwrap();
    let tags = JsonValue::Array(vec![
        JsonValue::Number(JsonNumber::Unsigned(1)),
        JsonValue::Bool(true),
        JsonValue::Null,
    ]);
    assert!(same(get_member(entries(&schema), "tags").unwrap(), &tags));
    assert!(g.set_selected_semantic_schema_json("[]".into()).is_ok());
    assert_eq!(g.semantic_clips()[0].duration, Duration::from_millis(2500));
    g.timeline.selected_semantic_clip_id = Some(999);
    assert!(matches!(
        g.set_selected_semantic_schema_json("{\"duration_sec\": 1e300}".into()),
        Err(GlobalStateError::SelectedSemanticClipMissing)
    ));
}

#[test]
fn texts_become_documents() {
    let read = |text: &str| read_document(text).unwrap();
    let number = |n| JsonValue::Number(n);
    assert!(same(&read(" 18446744073709551615 "), &number(JsonNumber::Unsigned(u64::MAX))));
    assert!(same(&read("-7"), &number(JsonNumber::Negative(-7))));
    assert!(same(&read("1.5"), &number(JsonNumber::Double(1.5f64.to_bits()))));
    let large = JsonNumber::Double(1.8446744073709552e19f64.to_bits());
    assert!(same(&read("18446744073709551616"), &number(large)));
    assert!(same(&read("\"a\\u0062\""), &text("ab")));
    let twice = object(vec![("k", number(JsonNumber::Unsigned(2)))]);
    assert!(same(&read("{\"k\": 1, \"k\": 2}"), &twice));
    assert_eq!(read_document("nulx").unwrap_err(), "expected ident at line 1 column 4");
    assert!(read_document(&"[".repeat(200)).unwrap_err().starts_with("recursion limit exceeded"));
}

#[test]
fn documents_become_texts() {
    let number = |n| JsonValue::Number(n);
    let double = |x: f64| number(JsonNumber::Double(x.to_bits()));
    let doc = object(vec![
        ("b", double(2.5)),
        ("a", JsonValue::Array(vec![number(JsonNumber::Negative(-7)), JsonValue::Null])),
        ("t", text("a\"b\n")),
        ("n", double(f64::NAN)),
        ("u", number(JsonNumber::Unsigned(u64::MAX))),
        ("y", JsonValue::Bool(true)),
    ]);
    assert_eq!(
        write_in_one_line(&doc),
        "{\"a\":[-7,null],\"b\":2.5,\"n\":null,\"t\":\"a\\\"b\\n\",\"u\":18446744073709551615,\"y\":true}"
    );
    let small = object(vec![("k", double(0.1)), ("o", object(vec![]))]);
    assert_eq!(write_in_lines(&small).unwrap(), "{\n  \"k\": 0.1,\n  \"o\": {}\n}");
    for x in [
        0.0,
        -0.0,
        1.0,
        -1.5,
        0.1,
        1.0 / 3.0,
        1e300,
        f64::MAX,
        f64::MIN_POSITIVE,
        f64::from_bits(1),
        123456789.125,
    ] {
        let wanted = serde_json::Value::from(x).to_string();
        assert_eq!(write_in_one_line(&double(x)), wanted);
        assert_eq!(write_exact(x.to_bits()).parse::<f64>().unwrap().to_bits(), x.to_bits());
    }
    assert_eq!(write_exact(2.5f64.to_bits()).parse::<f64>(), Ok(2.5));
    assert_eq!(write_exact(4503599627370496.0f64.to_bits()), "4503599627370496");
}

#[test]
fn requests_are_told_as_texts() {
    let mut g = state();
    assert_eq!(g.get_selected_semantic_schema_json(), None);
    g.insert_semantic_clip(s(1), s(2), "t".into(), "l".into(), None);
    let id = g.semantic_clips()[0].id;
    g.select_semantic_clip(id);
    let told = g.get_selected_semantic_schema_json().unwrap();
    assert!(told.contains("\n  \"duration_sec\": 2.0,\n"), "{told}");
    g.set_selected_semantic_schema_json(told.clone()).unwrap();
    assert_eq!(g.get_selected_semantic_schema_json(), Some(told));
}

#[test]
fn seconds_become_lengths() {
    for secs in [
        0.0,
        0.0005,
        0.1,
        1.0 / 3.0,
        2.5,
        1e-9,
        5e-10,
        1.5e-9,
        2.5e-9,
        123456.789,
        4503599627370497.5,
        1e18,
        f64::MIN_POSITIVE,
        f64::from_bits(1),
    ] {
        let wanted = std::time::Duration::try_from_secs_f64(secs).unwrap().as_nanos();
        let real = Real { bits: secs.to_bits() };
        assert_eq!(length_in(real).unwrap().nanos, wanted, "{secs}");
    }
    for secs in [1.8446744073709552e19, 1e300, f64::INFINITY, -1.0] {
        assert!(length_in(Real { bits: f64::to_bits(secs) }).is_none(), "{secs}");
    }
}

#[test]
fn single_numbers_become_double_ones() {
    for x in [
        0.0f32,
        -0.0,
        1.0,
        0.1,
        -2.75,
        f32::MIN_POSITIVE,
        f32::from_bits(1),
        f32::MAX,
        -f32::from_bits(0x7f_ffff),
    ] {
        assert_eq!(widen(num(x)).bits, f64::from(x).to_bits(), "{x}");
    }
}

#[test]
fn confidences_are_told_exactly() {
    let mut g = state();
    let c = |x: f32| SilencePreviewCandidate {
        start_ms: 0,
        end_ms: 10,
        confidence: num(x),
        reason: "quiet".into(),
        selected: true,
    };
    g.show_silence_preview_modal(SilencePreviewModalState {
        candidates: vec![c(0.1), c(f32::NAN)],
        timeline_revision: "r1".into(),
    });
    let told = g.selected_silence_candidates().unwrap();
    let JsonValue::Array(list) = get_member(entries(&told), "user_selected_silence_ranges").unwrap()
    else {
        panic!("no list");
    };
    assert_eq!(
        g.selected_silence_candidates_json().unwrap(),
        concat_text(&[
            "{\"instruction\":\"Apply ripple_delete_range for each selected range. ",
            "Validate then apply.\",\"timeline_revision\":\"r1\",",
            "\"user_selected_silence_ranges\":[",
            "{\"confidence\":0.10000000149011612,\"end_ms\":10,\"reason\":\"quiet\",\"start_ms\":0},",
            "{\"confidence\":null,\"end_ms\":10,\"reason\":\"quiet\",\"start_ms\":0}]}",
        ])
    );
    let tenth = JsonValue::Number(JsonNumber::Double(f64::from(0.1f32).to_bits()));
    assert!(same(get_member(entries(&list[0]), "confidence").unwrap(), &tenth));
    assert!(same(get_member(entries(&list[1]), "confidence").unwrap(), &JsonValue::Null));
}

#[test]
fn sound_is_drawn_once() {
    let mut g = state();
    let files = WaveformFiles {
        key: "k".into(),
        src_path: "/a.wav".into(),
        dst_path: "/c/a.peaks".into(),
        source_exists: true,
        dst_peaks: None,
        entry_peaks: None,
    };
    for _ in 0..2 {
        assert_eq!(g.ensure_waveform_for_path(&files, 64).status, WaveformStatus::Pending);
        assert_eq!(g.waveforms.queue.len(), 1);
    }
}

#[test]
fn the_environment_points_at_what_came_along() {
    let none = ToolFiles { program: false, probe: false, libraries: false };
    let mut found = RuntimeFiles {
        current: none,
        plain: none,
        gstreamer: false,
        gst_bin: false,
        gst_launch: false,
        gst_libraries: false,
        gst_plugins: false,
        gst_scanner: false,
        gst_typelib: false,
    };
    let told = |found: &RuntimeFiles, host| -> Vec<String> {
        runtime_settings(found, host)
            .iter()
            .map(|s| {
                let value = match &s.value {
                    SettingValue::Text(t) => t.clone(),
                    SettingValue::Below(p) => format!("</{}>", p.names.join("/")),
                };
                let way = match s.way {
                    SettingWay::IfMissing => "?=",
                    SettingWay::Instead => "=",
                    SettingWay::InFront => "+=",
                };
                format!("{}{way}{value}", s.name)
            })
            .collect()
    };
    let always =
        ["ANICA_MEDIA_RUNTIME_STRICT?=1", "ANICA_ALLOW_SYSTEM_MEDIA?=0", "ANICA_TOOLS_HOME=</>"];
    assert_eq!(told(&found, HostPlatform::MacOS), always);
    found.plain = ToolFiles { program: true, probe: true, libraries: true };
    found.gst_libraries = true;
    let mut wanted = always.map(String::from).to_vec();
    wanted.extend(
        [
            "ANICA_FFMPEG_PATH=</ffmpeg/bin/ffmpeg>",
            "ANICA_FFPROBE_PATH=</ffmpeg/bin/ffprobe>",
            "PATH+=</ffmpeg/bin>",
            "PATH+=</ffmpeg/bin>",
            "DYLD_FALLBACK_LIBRARY_PATH+=</ffmpeg/lib>",
            "DYLD_FALLBACK_LIBRARY_PATH+=</gstreamer/lib>",
        ]
        .map(String::from),
    );
    assert_eq!(told(&found, HostPlatform::MacOS), wanted);
    found.current = ToolFiles { program: true, probe: false, libraries: false };
    found.gstreamer = true;
    found.gst_bin = true;
    found.gst_launch = true;
    found.gst_plugins = true;
    found.gst_scanner = true;
    found.gst_typelib = true;
    let mut wanted = always.map(String::from).to_vec();
    wanted.extend(
        [
            "ANICA_FFMPEG_PATH=</ffmpeg/current/bin/ffmpeg.exe>",
            "PATH+=</ffmpeg/current/bin>",
            "PATH+=</gstreamer/bin>",
            "ANICA_GSTREAMER_PATH=</gstreamer/bin/gst-launch-1.0.exe>",
            "GST_PLUGIN_PATH=</gstreamer/lib/gstreamer-1.0>",
            "GST_PLUGIN_PATH_1_0=</gstreamer/lib/gstreamer-1.0>",
            "GST_PLUGIN_SYSTEM_PATH_1_0=</gstreamer/lib/gstreamer-1.0>",
            "GST_PLUGIN_SYSTEM_PATH=</gstreamer/lib/gstreamer-1.0>",
            "GST_PLUGIN_SCANNER=</gstreamer/libexec/gstreamer-1.0/gst-plugin-scanner>",
            "GST_PLUGIN_SCANNER_1_0=</gstreamer/libexec/gstreamer-1.0/gst-plugin-scanner>",
            "GI_TYPELIB_PATH+=</gstreamer/lib/girepository-1.0>",
            "GST_REGISTRY_1_0=</gstreamer/cache/registry.bin>",
        ]
        .map(String::from),
    );
    assert_eq!(told(&found, HostPlatform::Windows), wanted);
    assert_eq!(put_in_front("/a", ""), "/a");
    assert_eq!(put_in_front("/a", "/b:/c"), "/a:/b:/c");
}

#[test]
fn layers_are_made_moved_and_changed() {
    let mut g = state();
    g.add_layer_effect_clip_on_top_video_track();
    assert_eq!(g.timeline.video_tracks.len(), 1);
    let id = g.selected_layer_effect_clip_id().unwrap();
    let l = g.selected_layer_effect_clip().unwrap();
    assert_eq!((l.start, l.duration, l.track_index), (s(0), s(10), 0));
    assert!(!l.has_any_effect_enabled());
    assert!(g.set_selected_layer_effect_brightness(num(5.0), false));
    assert!(g.selected_layer_effect_brightness_enabled());
    assert_eq!(g.get_selected_layer_effect_brightness(num(0.0)), Some(num(1.0)));
    g.set_selected_layer_effect_blur(num(900.0), false);
    assert_eq!(g.get_selected_layer_effect_blur(num(0.0)), Some(num(64.0)));
    assert!(g.move_layer_effect_clip(id, s(4), None));
    assert!(g.resize_layer_effect_clip(id, s(0)));
    let l = g.selected_layer_effect_clip().unwrap();
    assert_eq!((l.start, l.duration), (s(4), Duration::from_millis(100)));
    assert!(l.shows_at(s(4)));
    assert!(!l.shows_at(s(5)));
    assert!(g.duplicate_selected_layer_effect_clip());
    assert_eq!(g.layer_effect_clips().len(), 2);
    assert!(g.remove_selected_layer_effect_clip());
    assert!(!g.remove_selected_layer_effect_clip());
    g.select_layer_effect_clip(id);
    g.timeline.playhead = s(4);
    assert!(g.add_selected_layer_effect_contrast_keyframe(num(1.5)));
    assert!(g.selected_layer_effect_has_contrast_keyframe());
    assert_eq!(
        g.layer_effect_clips()[0].value_at(LayerChannel::Contrast, s(4), num(0.0)),
        num(1.0)
    );
    assert!(g.remove_selected_layer_effect_brightness());
    assert!(!g.selected_layer_effect_brightness_enabled());
    assert!(g.set_layer_effect_clip_motionloom_script(id, "script".into()));
    assert!(!g.set_layer_effect_clip_motionloom_script(999, "script".into()));
    g.set_layer_color_blur_effects(LayerColorBlurEffects {
        brightness: num(-7.0),
        contrast: num(1.0),
        saturation: num(9.0),
        blur_sigma: num(0.0),
    });
    let e = g.layer_color_blur_effects();
    assert_eq!((e.brightness, e.saturation), (num(-1.0), num(2.0)));
    assert!(!e.is_identity());
    assert!(LayerColorBlurEffects::default().is_identity());
}

#[test]
fn layer_values_are_taken_from_what_shows() {
    let mut g = state();
    g.add_layer_effect_clip_on_top_video_track();
    g.add_layer_effect_clip_on_top_video_track();
    let ids: Vec<u64> = g.layer_effect_clips().iter().map(|l| l.id).collect();
    for id in ids {
        g.set_layer_effect_clip_motionloom_script(id, "x".into());
    }
    for l in &mut g.timeline.layer_effect_clips {
        l.motionloom_enabled = true;
    }
    let mixes = vec![Some(num(0.25)), Some(num(0.75))];
    assert_eq!(g.layer_lut_mix_at(s(1), &mixes), num(0.75));
    assert_eq!(g.layer_lut_mix_at(s(99), &mixes), num(0.0));
}

#[test]
fn requests_are_up_to_date_once() {
    let mut g = state();
    g.insert_semantic_clip(s(1), s(2), "t".into(), "l".into(), None);
    let id = g.semantic_clips()[0].id;
    g.select_semantic_clip(id);
    let old = object(vec![
        ("meta", text("m")),
        ("timing", JsonValue::Null),
        ("asset_mode", text("  ")),
        ("prompts", object(vec![("fallback_search_query", text("q"))])),
        ("extra", text("kept")),
    ]);
    g.set_selected_semantic_schema(Ok(old)).unwrap();
    let once = g.get_selected_semantic_schema().unwrap();
    let o = entries(&once);
    assert!(get_member(o, "meta").is_none() && get_member(o, "timing").is_none());
    assert_eq!(get_text(o, "asset_mode").as_deref(), Some("video"));
    assert_eq!(get_text(o, "extra").as_deref(), Some("kept"));
    assert!(get_member(entries(get_member(o, "prompts").unwrap()), "fallback_search_query").is_none());
    g.normalize_all_semantic_prompt_schemas();
    assert!(same(&once, &g.get_selected_semantic_schema().unwrap()));
}

#[test]
fn prompts_and_sizes_are_read_back() {
    let mut g = state();
    g.insert_semantic_clip(s(1), s(2), "t".into(), "l".into(), None);
    let id = g.semantic_clips()[0].id;
    g.select_semantic_clip(id);
    g.set_selected_semantic_prompt_text(" a dog ".into());
    assert_eq!(g.get_selected_semantic_prompt_text().as_deref(), Some("a dog"));
    g.set_selected_semantic_asset_mode("image".into());
    assert_eq!(g.get_selected_semantic_prompt_text().as_deref(), Some("l"));
    g.set_selected_semantic_prompt_text("a cat".into());
    g.set_selected_semantic_asset_mode("video".into());
    assert_eq!(g.get_selected_semantic_prompt_text().as_deref(), Some("a dog"));
    g.set_selected_semantic_image_size(Some(640), None);
    assert_eq!(g.get_selected_semantic_image_size(), Some((Some(640), Some(720))));
    g.set_selected_semantic_image_size(None, Some(480));
    assert_eq!(g.get_selected_semantic_image_size(), Some((Some(1280), Some(480))));
    g.set_selected_semantic_image_size(None, None);
    assert_eq!(g.get_selected_semantic_image_size(), Some((Some(1280), Some(720))));
}

#[test]
fn files_go_under_their_last_name() {
    let mut g = state();
    g.load_source_video("/media/a/film.mp4", s(4));
    assert_eq!(g.media.active_source_name, "film.mp4");
    g.load_source_video("/My Films/Été (1).mp4", s(4));
    assert_eq!(g.media.active_source_name, "Été (1).mp4");
    g.relocate_media_path("/My Films/Été (1).mp4", "/x/Hiver [2].mp4");
    assert_eq!(g.media.media_pool[1].name, "Hiver [2].mp4");
    g.load_source_video("sound.wav", s(4));
    assert_eq!(g.media.active_source_name, "sound.wav");
    g.relocate_media_path("/media/a/film.mp4", "/b/cut.mp4");
    assert_eq!(g.media.media_pool[0].name, "cut.mp4");
    g.insert_semantic_clip(s(1), s(2), "t".into(), "l".into(), None);
    let id = g.semantic_clips()[0].id;
    assert!(g.add_generated_asset_to_semantic_timeline(id, "/g/new.mp4", s(1)).is_ok());
    assert_eq!(g.timeline.video_tracks[0].clips[0].label, "(Video) new.mp4");
    assert!(matches!(
        g.add_generated_asset_to_semantic_timeline(id + 9, "/g/new.mp4", s(1)),
        Err(GlobalStateError::TargetSemanticClipMissing)
    ));
    assert!(matches!(
        g.add_generated_asset_to_semantic_timeline(id, "/g/new.txt", s(1)),
        Err(GlobalStateError::UnsupportedGeneratedMediaPath)
    ));
}

#[test]
fn tools_are_looked_for_in_their_places() {
    let names = |list: Vec<Place>| -> Vec<String> {
        list.iter().map(|p| p.names.join("/")).collect()
    };
    assert_eq!(
        names(workspace_places("linux", "x86_64", "ffmpeg", "ffmpeg")),
        [
            "linux-x86_64/ffmpeg/bin/ffmpeg",
            "linux/ffmpeg/bin/ffmpeg",
            "current/linux-x86_64/ffmpeg/bin/ffmpeg",
            "current/linux/ffmpeg/bin/ffmpeg",
            "current/ffmpeg/bin/ffmpeg"
        ]
    );
    assert_eq!(names(home_places("f", "t")), ["f/bin/t", "f/current/bin/t"]);
    assert_eq!(names(bundle_places("t")), ["ffmpeg/bin/t", "gstreamer/bin/t"]);
    assert_eq!(program_file_name("ffmpeg", HostPlatform::Windows), "ffmpeg.exe");
    assert_eq!(program_file_name("ffmpeg", HostPlatform::Linux), "ffmpeg");
    assert_eq!(common_gstreamer_places(HostPlatform::Linux)[0], "/usr/bin/gst-launch-1.0");
    assert!(common_gstreamer_places(HostPlatform::Windows).is_empty());
    let (base, place) = usual_tools_home(HostPlatform::Windows, false, true, true).unwrap();
    assert_eq!((base, place.names), (HomeBase::Profile, vec![".anica".into(), "tools".into()]));
    assert!(usual_tools_home(HostPlatform::Linux, true, true, false).is_none());
    assert_eq!(setup_script_name(HostPlatform::MacOS), Some("setup_media_tools.sh"));
    assert_eq!(setup_script_name(HostPlatform::Other), None);
    let (programs, args) = setup_command_args(HostPlatform::Linux, "/s.sh", "/h");
    assert_eq!(programs, ["bash"]);
    assert_eq!(args, ["/s.sh", "--mode", "local-lgpl", "--yes"]);
    let (programs, args) = setup_command_args(HostPlatform::Windows, "s.ps1", "h");
    assert_eq!(programs, ["pwsh", "powershell"]);
    assert_eq!((args[4].as_str(), args[10].as_str()), ("s.ps1", "h"));
}

#[test]
fn folders_stand_beside_the_project() {
    let mut g = state();
    assert_eq!(g.cache_root_dir("/usual"), "/usual");
    assert_eq!(g.generated_media_root_dir("/usual"), "/usual");
    assert_eq!(
        g.generated_media_dir_for_semantic_mode("video", "/usual"),
        "/usual/videos_generated"
    );
    g.set_project_file_path(Some("/My Films/one.json".into()));
    assert_eq!(g.cache_root_dir("/usual"), "/My Films/.anica_cache");
    assert_eq!(g.generated_media_root_dir("/usual"), "/My Films");
    assert_eq!(
        g.generated_media_dir_for_semantic_mode("image", "/usual"),
        "/My Films/images_generated"
    );
    g.set_project_file_path(Some("/".into()));
    assert_eq!(g.cache_root_dir("/usual"), "/usual");
}
