//! Exports.
use anica_core::clip::Clip;
use anica_core::double::{count_pictures, Real};
use anica_core::effect::{LocalMaskLayer, ScalarKeyframe, VideoEffect};
use anica_core::export_checks::{is_identity_video_effect, is_opacity_only_compatible_clip};
use anica_core::export_clip::{ExportClip, ExportLook};
use anica_core::export_effects::{build_eq_filter, build_opacity_filter, ClipWords, LayerAdjustWords, MaskWords, OpacityMode};
use anica_core::export_errors::{is_cancelled_export_error, stage_failure, ExportError};
use anica_core::export_gpu::{
    alpha_over_rgba, build_clip_decode_rgba_args, bytes_of_frame, count_frames, find_part,
    layer_step, plan_multitrack_run, plan_single_clip_run, progress_at_frame, time_of_frame,
    ClipPart, LayerStep, TrackClipSpec,
};
use anica_core::export_graph::{
    build_ffmpeg_cmd, clip_segment_for_export, has_dissolve, length_of_dissolve, trim_filter_text,
    volume_filter_text, DissolveCut,
    ExportAudioLane, ExportContent, ExportLane, ExportSound, SubtitleOverlay,
};
use anica_core::export_layers::{
    build_layer_gate_expr_for_clip, build_layer_opacity_factor_expr_for_clip,
    build_motionloom_blur_filter_for_clip, build_motionloom_hsla_filter_for_clip,
    build_motionloom_lut_filter_for_clip, build_motionloom_sharpen_filter_for_clip, ExportLayer,
    LayerScript, ScriptWords, SharpenWords, SpanWords,
};
use anica_core::export_ready::is_ready;
use anica_core::export_run::{
    build_copy_ffmpeg_cmd, compute_audio_timeline_max, compute_timeline_max, progress_total,
    strip_prefix, temp_output_name, temp_output_path, with_progress_args, AfterFailure, ExportAttempt,
    ExportTimeline, FfmpegExporter, FirstCommand, GpuCommand, GpuPath, LineStep, ProgressReader,
};
use anica_core::export_session::{
    ExportAction, ExportEvent, ExportPhase, ExportSession, GpuOutcome,
};
use anica_core::export_settings::{
    export_fps_choices_for_ui, export_resolution_choices_for_ui, normalize_export_range,
    ExportMode, ExportPreset, ExportRange, ExportSettings,
};
use anica_core::filter_words::{
    between_text, build_keyframe_expr, fixed_text, full_text, if_before_text,
};
use anica_core::layer::{LayerColorBlurEffects, LayerEffectClip};
use anica_core::modes::ExportColorMode;
use anica_core::placing::make_clip;
use anica_core::scalar::Scalar;
use anica_core::script_plan::{
    analyze_motionloom_script_for_export, normalize_param_value, parse_transition_easing_text,
    GraphApplyScope, PassParam, PassTransitionEasing, ScriptGraph, ScriptPass,
};
use anica_core::time::Duration;
use anica_core::tracks::{AudioTrack, VideoTrack};
use anica_core::turns::bring_within_turn;

fn at(s: u64) -> Duration {
    Duration::from_secs(s)
}

fn ms(n: u64) -> Duration {
    Duration::from_millis(n)
}

fn num(x: f32) -> Scalar {
    Scalar::from_bits(x.to_bits())
}

fn dbl(x: f64) -> Real {
    Real { bits: x.to_bits() }
}

fn clip(id: u64, path: &str, start: u64, length: u64) -> Clip {
    make_clip(id, "c".to_string(), &path.to_string(), at(start), at(length), None)
}

fn plain_clip(id: u64, path: &str, start: u64, length: u64) -> Clip {
    let mut c = clip(id, path, start, length);
    c.video_effects = Vec::new();
    c.local_mask_layers = Vec::new();
    c
}

fn words() -> ClipWords {
    ClipWords {
        scale: "1.000000".into(),
        rotation: "0.000000".into(),
        pos_x: "0.000000".into(),
        pos_y: "0.000000".into(),
        brightness: "0.000000".into(),
        contrast: "1.000000".into(),
        saturation: "1.000000".into(),
        opacity: "1.000000".into(),
        short_opacity: "1.0000".into(),
        blur: "0.0000".into(),
        tint: "0x00000000".into(),
        zoom: "1".into(),
        shock_zoom: "1".into(),
        slide_x: "0".into(),
        slide_y: "0".into(),
        fade: None,
        dissolve: None,
        scale_keys: vec![],
        rotation_keys: vec![],
        pos_x_keys: vec![],
        pos_y_keys: vec![],
        brightness_keys: vec![],
        contrast_keys: vec![],
        saturation_keys: vec![],
        opacity_keys: vec![],
        masks: vec![mask_words("0.000000")],
    }
}

fn mask_words(brightness: &str) -> MaskWords {
    MaskWords {
        brightness: brightness.into(),
        contrast: "1.000000".into(),
        saturation: "1.000000".into(),
        blur: "0.0000".into(),
        opacity: "1.0000".into(),
        center_x: "0.500000".into(),
        center_y: "0.500000".into(),
        edge: "0.400000".into(),
        feather: "0.150000".into(),
        strength: "1.000000".into(),
    }
}

fn look() -> ExportLook {
    ExportLook {
        width: 1920,
        height: 1080,
        width_words: "1920.000".into(),
        height_words: "1080.000".into(),
        fps: 30,
        effects: LayerColorBlurEffects::default(),
        adjust: LayerAdjustWords {
            brightness: "0.000000".into(),
            contrast_gain: "0.000000".into(),
            saturation_gain: "0.000000".into(),
            blur: "0.0000".into(),
        },
        layers: vec![],
        color_mode: ExportColorMode::Hybrid,
        without_masks: false,
    }
}

fn layer(start: u64, length: u64) -> LayerEffectClip {
    LayerEffectClip {
        id: 1,
        start: at(start),
        duration: at(length),
        track_index: 0,
        fade_in: at(0),
        fade_out: at(0),
        brightness: num(0.0),
        contrast: num(1.0),
        saturation: num(1.0),
        blur_sigma: num(0.0),
        brightness_enabled: false,
        contrast_enabled: false,
        saturation_enabled: false,
        blur_enabled: false,
        brightness_keyframes: vec![],
        contrast_keyframes: vec![],
        saturation_keyframes: vec![],
        blur_keyframes: vec![],
        motionloom_enabled: true,
        motionloom_script: "x".into(),
    }
}

fn pass(kernel: &str, effect: &str, params: &[(&str, &str)]) -> ScriptPass {
    ScriptPass {
        kernel: Some(kernel.into()),
        effect: effect.into(),
        transition: None,
        transition_easing: None,
        params: params
            .iter()
            .map(|(k, v)| PassParam {
                key: k.to_string(),
                value: v.to_string(),
                number: normalize_param_value(v)
                    .parse::<f64>()
                    .ok()
                    .map(|n| Real { bits: n.to_bits() }),
            })
            .collect(),
    }
}

fn script(passes: Vec<ScriptPass>) -> LayerScript {
    let graph = ScriptGraph {
        apply: GraphApplyScope::Graph,
        duration_ms: 2000,
        duration_explicit: true,
        passes,
    };
    LayerScript {
        plan: analyze_motionloom_script_for_export(&graph).unwrap(),
        words: ScriptWords {
            opacity_factor: "0.500000".into(),
            transitions: vec![SpanWords { start: "0.000000".into(), duration: "0.600000".into() }],
            blur: "3.0000".into(),
            sharpen: SharpenWords {
                size: 4,
                step: 2,
                amount: "1.0500".into(),
                strong_amount: "1.2000".into(),
            },
            lut_mix: "0.400000".into(),
            overlay_alpha: "0.300000".into(),
            overlay_red: "255.000000".into(),
            overlay_green: "0.000000".into(),
            overlay_blue: "1.000000".into(),
        },
    }
}

fn timeline(v1: Vec<Clip>) -> ExportTimeline {
    ExportTimeline {
        v1,
        sounds: vec![],
        overlays: vec![],
        subtitles: vec![],
        effects: LayerColorBlurEffects::default(),
        layers: vec![],
    }
}

fn content(clips: Vec<Clip>, length: Duration) -> ExportContent {
    let cuts = (1..clips.len())
        .map(|_| DissolveCut { wanted: at(0), left: words(), right: words() })
        .collect();
    ExportContent {
        v1: ExportLane {
            clips: clips.into_iter().map(|clip| ExportClip { clip, words: words() }).collect(),
            cuts,
        },
        overlays: vec![],
        sounds: vec![],
        subtitles: vec![],
        length,
    }
}

#[test]
fn preset_ids_read_back() {
    for p in ExportPreset::all_for_ui() {
        assert_eq!(ExportPreset::from_id(p.id()), Some(*p));
    }
    for m in ExportMode::all_for_ui() {
        assert_eq!(ExportMode::from_id(m.id()), Some(*m));
    }
    assert_eq!(ExportPreset::all_for_ui().len(), 17);
    assert_eq!(ExportPreset::from_id("nope"), None);
    assert_eq!(ExportMode::from_id(""), None);
    assert_eq!(ExportPreset::ProRes4444Mov.file_extension(), "mov");
    assert_eq!(ExportPreset::Opus.label(), "Audio OPUS");
    assert!(ExportPreset::Vp9Webm.supports_crf());
    assert!(!ExportPreset::H264Mp4.supports_crf());
    assert!(ExportPreset::Flac.is_audio_only());
    assert_eq!(export_fps_choices_for_ui(), &[24, 25, 30, 48, 50, 60, 72, 90, 100, 120, 144]);
    assert_eq!(export_resolution_choices_for_ui().len(), 25);
    assert_eq!(export_resolution_choices_for_ui()[8], ("1920x1080", "Full HD 1920x1080"));
    assert_eq!(ExportMode::KeepSourceCopy.label(), "Keep Source (Copy)");
    assert!(ExportPreset::Mp3.description().starts_with("Audio-only"));
}

#[test]
fn settings_are_brought_into_range() {
    let mut s = ExportSettings::default();
    assert_eq!((s.fps, s.crf, s.audio_bitrate_kbps), (30, 20, 192));
    s.fps = 0;
    s.crf = 99;
    s.audio_bitrate_kbps = 9999;
    assert_eq!(s.normalized_fps(), 1);
    assert_eq!(s.normalized_crf(), 51);
    assert_eq!(s.normalized_audio_bitrate_kbps(), 512);
}

#[test]
fn output_args_follow_the_preset() {
    let s = ExportSettings::default();
    let mut args = vec![];
    ExportPreset::Av1SvtMkv.push_output_args(&mut args, &s, false);
    assert_eq!(
        args,
        [
            "-c:v", "libsvtav1", "-pix_fmt", "yuv420p10le", "-crf", "20", "-preset", "8", "-c:a",
            "libopus", "-b:a", "192k"
        ]
    );
    let mut hevc = vec![];
    ExportPreset::HevcMp4.push_output_args(&mut hevc, &s, false);
    let mut h264 = vec![];
    ExportPreset::H264Mp4.push_output_args(&mut h264, &s, false);
    assert_eq!(hevc, h264);
    assert!(h264.contains(&"libopenh264".to_string()));
    let mut mac = vec![];
    ExportPreset::HevcMp4.push_output_args(&mut mac, &s, true);
    assert!(mac.contains(&"hvc1".to_string()));
}

#[test]
fn range_is_kept_within_the_timeline() {
    let r = ExportRange { start: at(2), end: at(90) };
    assert_eq!(
        normalize_export_range(Some(r), at(10)),
        Some(ExportRange { start: at(2), end: at(10) })
    );
    let whole = ExportRange { start: at(0), end: at(10) };
    assert_eq!(normalize_export_range(Some(whole), at(10)), None);
    let short = ExportRange { start: at(3), end: at(3) };
    assert_eq!(normalize_export_range(Some(short), at(10)), None);
    assert_eq!(normalize_export_range(None, at(10)), None);
    assert_eq!(r.duration(), at(88));
    assert_eq!(progress_total(Some(r), at(10)), at(88));
    assert_eq!(progress_total(None, at(0)), ms(1));
}

#[test]
fn seconds_are_written_in_words() {
    assert_eq!(fixed_text(ms(1500)), "1.500000");
    assert_eq!(full_text(ms(1500)), "1.5");
    assert_eq!(full_text(at(2)), "2");
}

#[test]
fn keyframes_become_an_expression() {
    let key = |t: u64| ScalarKeyframe { time: at(t), value: num(0.0) };
    let values = |list: &[&str]| list.iter().map(|v| v.to_string()).collect::<Vec<String>>();
    assert_eq!(build_keyframe_expr(&vec![], &vec![], "0.5", "t"), "0.5");
    assert_eq!(build_keyframe_expr(&vec![key(1)], &values(&["9"]), "0.5", "t"), "9");
    assert_eq!(
        build_keyframe_expr(&vec![key(1), key(3)], &values(&["a", "b"]), "0.5", "t"),
        "if(lt(t,1.000000),a,if(lt(t,3.000000),a + (b-a)*(t-1.000000)/2.000000,b))"
    );
}

#[test]
fn identity_of_effects() {
    assert!(is_identity_video_effect(&VideoEffect::ColorCorrection {
        brightness: num(0.0005),
        contrast: num(1.0005),
        saturation: num(0.9995),
    }));
    assert!(!is_identity_video_effect(&VideoEffect::GaussianBlur { sigma: num(0.5) }));
    assert!(!is_identity_video_effect(&VideoEffect::GaussianBlur { sigma: num(f32::NAN) }));
    assert!(!is_identity_video_effect(&VideoEffect::Opacity { alpha: num(1.0) }));
    assert!(is_identity_video_effect(&VideoEffect::Pixelate { block_size: 1 }));
    for x in [0.998f32, 0.9989999, 0.999, 0.99900013, 1.0, 1.0009999, 1.001, 1.0010001] {
        let e = VideoEffect::Transform {
            scale: num(x),
            position_x: num(0.0),
            position_y: num(0.0),
            rotation_deg: num(0.0),
        };
        assert_eq!(is_identity_video_effect(&e), (x - 1.0).abs() <= 0.001, "{x}");
    }
    assert!(is_opacity_only_compatible_clip(&clip(1, "/a.mp4", 0, 5)));
}

#[test]
fn copy_is_for_one_untouched_clip() {
    let t = timeline(vec![plain_clip(1, "/a.mp4", 0, 10)]);
    let args = build_copy_ffmpeg_cmd(&t, None, "/o.mp4").unwrap();
    assert_eq!(
        args,
        [
            "-y", "-hide_banner", "-ss", "0.000000", "-t", "10.000000", "-i", "/a.mp4", "-map",
            "0:v:0", "-map", "0:a?", "-c", "copy", "/o.mp4"
        ]
    );
    let part = ExportRange { start: at(2), end: at(5) };
    let args = build_copy_ffmpeg_cmd(&t, Some(part), "/o.mp4").unwrap();
    assert_eq!((args[3].as_str(), args[5].as_str()), ("2.000000", "3.000000"));
    let outside = ExportRange { start: at(2), end: at(50) };
    assert!(build_copy_ffmpeg_cmd(&t, Some(outside), "/o.mp4").is_none());
    assert!(build_copy_ffmpeg_cmd(&timeline(vec![clip(1, "/a.mp4", 0, 10)]), None, "/o").is_none());
    assert!(build_copy_ffmpeg_cmd(&timeline(vec![]), None, "/o").is_none());
}

#[test]
fn lengths_of_the_timeline() {
    let mut t = timeline(vec![plain_clip(1, "/a.mp4", 2, 3)]);
    let mut a = AudioTrack::new("A1".into());
    a.clips.push(plain_clip(2, "/a.mp4", 4, 5));
    t.sounds.push(a);
    assert_eq!(compute_timeline_max(&t), at(9));
    assert_eq!(compute_audio_timeline_max(&t), at(9));
    assert_eq!(compute_timeline_max(&timeline(vec![])), at(5));
    assert_eq!(compute_audio_timeline_max(&timeline(vec![])), at(5));
}

#[test]
fn command_without_clips_is_black_and_silent() {
    let c = content(vec![], at(5));
    let args = build_ffmpeg_cmd(
        &c,
        &look(),
        None,
        ExportPreset::WavPcm,
        &ExportSettings::default(),
        false,
        "/o.wav",
    );
    assert_eq!(
        args,
        [
            "-y",
            "-hide_banner",
            "-filter_complex",
            "color=c=black:s=1920x1080:r=30:d=5,format=bgra[v_base];anullsrc=channel_layout=stereo:sample_rate=48000:d=5.000000[aout];[v_base]nullsink",
            "-map",
            "[aout]",
            "-vn",
            "-c:a",
            "pcm_s16le",
            "/o.wav"
        ]
    );
}

#[test]
fn exports_are_ready_once_all_is_told() {
    let settings = ExportSettings::default();
    let clips = || vec![plain_clip(1, "/a.mp4", 0, 2), plain_clip(2, "/b.mp4", 2, 2)];
    assert!(is_ready(&content(clips(), at(4)), &look(), &settings));
    let mut c = content(clips(), at(4));
    c.v1.clips[1].words.scale_keys.push("1".into());
    assert!(!is_ready(&c, &look(), &settings));
    let mut c = content(clips(), at(4));
    c.v1.cuts[0].left.masks.clear();
    assert!(!is_ready(&c, &look(), &settings));
    let mut c = content(clips(), at(4));
    c.v1.cuts.clear();
    assert!(!is_ready(&c, &look(), &settings));
    let slow = ExportLook { fps: 24, ..look() };
    assert!(!is_ready(&content(clips(), at(4)), &slow, &settings));
}

#[test]
fn command_draws_one_clip_and_its_gap() {
    let c = content(vec![plain_clip(1, "/a.mp4", 1, 2)], at(4));
    let args = build_ffmpeg_cmd(
        &c,
        &look(),
        Some(ExportRange { start: at(1), end: at(3) }),
        ExportPreset::ProRes422Mov,
        &ExportSettings::default(),
        false,
        "/o.mov",
    );
    assert_eq!(&args[..5], ["-y", "-hide_banner", "-i", "/a.mp4", "-filter_complex"]);
    let parts: Vec<&str> = args[5].split(';').collect();
    assert_eq!(
        parts[0],
        "color=c=black:s=1920x1080:r=30:d=1,format=bgra[v1_gap_0]"
    );
    assert_eq!(
        parts[1],
        "color=c=black@0:s=1920x1080:r=30:d=2,format=bgra[v1_canvas_0]"
    );
    assert_eq!(
        parts[2],
        "[0:v:0]fps=30,setsar=1,trim=start=0.000000:end=2.000000,setpts=PTS-STARTPTS,format=bgra,scale=w='(1920.000)*((1.000000)*(1)*(1))':h='(1080.000)*((1.000000)*(1)*(1))':force_original_aspect_ratio=decrease:eval=frame[v1_content_base_0]"
    );
    assert_eq!(
        parts[3],
        "[v1_canvas_0][v1_content_base_0]overlay=x='(W-w)/2 + ((0.000000)+(0)) * 1920.000':y='(H-h)/2 + ((0.000000)+(0)) * 1080.000':shortest=1:format=auto[v1_clip_0]"
    );
    assert_eq!(
        parts[4],
        "color=c=black:s=1920x1080:r=30:d=1,format=bgra[v1_gap_end]"
    );
    assert_eq!(
        parts[5],
        "[v1_gap_0][v1_clip_0][v1_gap_end]concat=n=3:v=1:a=0,format=bgra[v_base]"
    );
    assert_eq!(
        parts[7],
        "[v_base]trim=start=1.000000:end=3.000000,setpts=PTS-STARTPTS[v_export_trim]"
    );
    assert_eq!(&args[6..10], ["-map", "[v_export_trim]", "-map", "[a_export_trim]"]);
    assert_eq!(args.last().unwrap(), "/o.mov");
}

#[test]
fn same_file_is_read_once_and_a_picture_once_for_each_length() {
    let c = content(
        vec![
            plain_clip(1, "/a.mp4", 0, 2),
            plain_clip(2, "/a.mp4", 2, 2),
            plain_clip(3, "/p.png", 4, 2),
            plain_clip(4, "/p.png", 6, 3),
            plain_clip(5, "/p.png", 9, 2),
        ],
        at(11),
    );
    let args = build_ffmpeg_cmd(
        &c,
        &look(),
        None,
        ExportPreset::H264Mp4,
        &ExportSettings::default(),
        false,
        "/o.mp4",
    );
    assert_eq!(args.iter().filter(|a| *a == "-i").count(), 3);
    assert_eq!(
        &args[4..12],
        ["-loop", "1", "-framerate", "30", "-t", "2", "-i", "/p.png"]
    );
}

#[test]
fn sounds_are_joined_mixed_and_padded() {
    let mut c = content(vec![], at(6));
    let sound = |start, has_audio, volume: Option<&str>| ExportSound {
        clip: plain_clip(9, "/s.wav", start, 2),
        has_audio,
        volume: volume.map(|v| v.to_string()),
    };
    c.sounds.push(ExportAudioLane {
        sounds: vec![sound(1, true, Some("0.500000")), sound(3, false, None)],
        volume: Some("2.000000".into()),
    });
    c.sounds.push(ExportAudioLane { sounds: vec![], volume: None });
    c.sounds.push(ExportAudioLane { sounds: vec![sound(0, true, None)], volume: None });
    let args = build_ffmpeg_cmd(
        &c,
        &look(),
        None,
        ExportPreset::Mp3,
        &ExportSettings::default(),
        false,
        "/o.mp3",
    );
    let filter = &args[args.iter().position(|a| a == "-filter_complex").unwrap() + 1];
    let parts: Vec<&str> = filter.split(';').collect();
    assert_eq!(
        parts[1..],
        [
            "anullsrc=channel_layout=stereo:sample_rate=48000:d=1[audio_0_gap_0]",
            "[0:a:0]aresample=48000,atrim=start=0.000000:end=2.000000,asetpts=PTS-STARTPTS[audio_0_clip_raw_0]",
            "[audio_0_clip_raw_0]volume=0.500000[audio_0_clip_0]",
            "anullsrc=channel_layout=stereo:sample_rate=48000:d=2.000000[audio_0_clip_1]",
            "[audio_0_gap_0][audio_0_clip_0][audio_0_clip_1]concat=n=3:v=0:a=1[a_track_0]",
            "[a_track_0]volume=2.000000[a_track_gain_0]",
            "[0:a:0]aresample=48000,atrim=start=0.000000:end=2.000000,asetpts=PTS-STARTPTS[audio_2_clip_raw_0]",
            "[audio_2_clip_raw_0]anull[audio_2_clip_0]",
            "[audio_2_clip_0]concat=n=1:v=0:a=1[a_track_2]",
            "[a_track_gain_0][a_track_2]amix=inputs=2:duration=longest:dropout_transition=0[aout]",
            "[v_base]nullsink"
        ]
    );
}

#[test]
fn overlays_dissolves_and_subtitles_are_laid_over() {
    let mut a = plain_clip(1, "/a.mp4", 0, 4);
    a.media_duration = at(9);
    let mut b = plain_clip(2, "/b.mp4", 4, 4);
    b.source_in = at(1);
    a.set_dissolve_out(num(1.0));
    b.set_dissolve_in(num(2.0));
    assert!(has_dissolve(&a, &b, false));
    assert_eq!(length_of_dissolve(&a, &b, false, at(1)), at(1));
    let piece = clip_segment_for_export(&a, at(3), at(3), at(1), true);
    assert_eq!((piece.source_in, piece.start, piece.duration), (at(3), at(3), at(1)));
    assert_eq!(piece.get_dissolve_out(), num(0.0));
    let mut c = content(vec![a, b], at(8));
    c.v1.cuts[0].wanted = at(1);
    c.overlays.push(ExportLane {
        clips: vec![ExportClip { clip: plain_clip(3, "/c.mp4", 2, 1), words: words() }],
        cuts: vec![],
    });
    c.subtitles.push(SubtitleOverlay {
        path: "/s.png".into(),
        start: "1.000".into(),
        end: "2.000".into(),
    });
    let args = build_ffmpeg_cmd(
        &c,
        &look(),
        None,
        ExportPreset::H264Mp4,
        &ExportSettings::default(),
        false,
        "/o.mp4",
    );
    let filter = &args[args.iter().position(|x| x == "-filter_complex").unwrap() + 1];
    for part in [
        "[v1_dissolve_l_clip_0][v1_dissolve_r_clip_0]blend=all_expr='A*(1-clip(T/1.000000,0,1))+B*clip(T/1.000000,0,1)':shortest=1,format=bgra[v1_dissolve_blend_0]",
        "[v1_dissolve_blend_0]setpts=PTS-STARTPTS+3.500000/TB[v1_dissolve_timed_0]",
        "[v_base][v1_dissolve_timed_0]overlay=0:0:format=auto:eof_action=pass:enable='between(t,3.500000,4.500000)'[v1_dissolve_comp_0]",
        "[v1_dissolve_comp_0][v_layer_0]overlay=0:0:format=auto[v_comp_0]",
        "[3:v]format=bgra[v_sub_layer_0]",
        "[v_comp_0][v_sub_layer_0]overlay=0:0:format=auto:enable='between(t,1.000,2.000)'[v_sub_comp_0]",
    ] {
        assert!(filter.split(';').any(|p| p == part), "{part}\n{filter}");
    }
    assert!(filter.contains("trim=start=3.500000:end=4.500000"));
    assert!(filter.contains("trim=start=0.500000:end=1.500000"));
}

#[test]
fn masks_split_and_blend() {
    let mut c = clip(1, "/a.mp4", 0, 2);
    c.video_effects = vec![];
    c.local_mask_layers = vec![LocalMaskLayer {
        enabled: true,
        brightness: num(0.5),
        ..LocalMaskLayer::default()
    }];
    let mut e = content(vec![c], at(2));
    e.v1.clips[0].words.masks = vec![mask_words("0.500000")];
    let build = |l: &ExportLook| {
        build_ffmpeg_cmd(
            &e,
            l,
            None,
            ExportPreset::H264Mp4,
            &ExportSettings::default(),
            false,
            "/o.mp4",
        )
    };
    let with = build(&look());
    let filter = &with[5];
    assert!(filter.contains("[v1_content_base_0]split=2[v1_lm0_orig_0][v1_lm0_work_0]"));
    assert!(filter.contains("[v1_lm0_work_0]format=bgra,eq=brightness='0.500000':contrast='1.000000':saturation='1.000000'[v1_lm0_fx_0]"));
    assert!(filter.contains("[v1_canvas_0][v1_lm0_out_0]overlay"));
    let mut bare = look();
    bare.without_masks = true;
    assert!(!build(&bare)[5].contains("split=2"));
}

#[test]
fn script_plans_gather_what_passes_ask() {
    let s = script(vec![
        pass("transition_core.wgsl", " \"Fade-Out\" ", &[("easing", "ease_in"), ("durationSec", "x")]),
        pass("blur_sharpen_detail_gaussian.wgsl", "gaussian", &[("sigma", "\"3\"")]),
        pass("blur_sharpen_detail_gaussian.wgsl", "unsharp", &[("sigma", "900")]),
        pass("composite_core.wgsl", "opacity", &[("opacity", "0.5")]),
        pass("color_core.wgsl", "lut", &[("lut_mix", "0.4")]),
        pass("color_core.wgsl", "hsla", &[("alpha", "0.3")]),
        pass("unknown.wgsl", "lut", &[]),
    ]);
    assert_eq!(s.plan.transitions.len(), 1);
    assert_eq!(s.plan.transitions[0].easing, PassTransitionEasing::EaseIn);
    assert_eq!(s.plan.transitions[0].duration_sec, dbl(0.6));
    assert_eq!(s.plan.blur_sigma, Some(dbl(3.0)));
    assert_eq!(s.plan.sharpen_sigma, Some(dbl(64.0)));
    assert_eq!(s.plan.opacity_factor, Some(dbl(0.5)));
    assert_eq!(s.plan.lut_mix, Some(dbl(0.4)));
    assert_eq!(s.plan.hsla_overlay.unwrap().alpha, dbl(0.3));
    let empty = ScriptGraph {
        apply: GraphApplyScope::Clip,
        duration_ms: 1,
        duration_explicit: false,
        passes: vec![],
    };
    assert!(analyze_motionloom_script_for_export(&empty).is_none());
    assert_eq!(normalize_param_value("  \"a b\" "), "a b");
    assert_eq!(parse_transition_easing_text("Ease-In-Out"), Some(PassTransitionEasing::EaseInOut));
    assert_eq!(parse_transition_easing_text("bounce"), None);
}

#[test]
fn layers_gate_and_filter_a_clip() {
    let c = clip(1, "/a.mp4", 5, 10);
    let mut l = layer(3, 4);
    l.fade_in = at(1);
    let layers = vec![ExportLayer {
        clip: l,
        script: Some(script(vec![
            pass("composite_core.wgsl", "opacity", &[("opacity", "0.5")]),
            pass("blur_sharpen_detail_gaussian.wgsl", "gaussian", &[("sigma", "3")]),
            pass("blur_sharpen_detail_gaussian.wgsl", "sharpen", &[("sigma", "2")]),
            pass("color_core.wgsl", "lut", &[("mix", "0.4")]),
            pass("color_core.wgsl", "hsla", &[("a", "0.3")]),
        ])),
    }];
    assert_eq!(
        build_layer_gate_expr_for_clip(&c, &layers, "t", false).as_deref(),
        Some("clip(between(t,0.000000,2.000000),0,1)")
    );
    assert_eq!(
        build_layer_gate_expr_for_clip(&c, &layers, "t", true).as_deref(),
        Some("clip(between(t,0.000000,2.000000)*(min(clip((t-(-2.000000))/1.000000,0,1),1)),0,1)")
    );
    let active = "between(T,0.000000,2.000000)";
    let envelope = "min(clip((T-(-2.000000))/1.000000,0,1), 1)";
    let local = "(T-(-2.000000))";
    assert_eq!(
        build_layer_opacity_factor_expr_for_clip(&c, &layers, "T").unwrap(),
        format!(
            "clip(if(gte({active},0.5),(({active})*({envelope}))*(if(gte({active},0.5),if(between({local},0,2.000000),0.500000,1),1)),1),0,1)"
        )
    );
    assert_eq!(
        build_motionloom_blur_filter_for_clip(&c, &layers, "t"),
        ",gblur=sigma=3.0000:steps=1:enable='(between(t,0.000000,2.000000))*between((t-(-2.000000)),0,2.000000)'"
    );
    assert_eq!(
        build_motionloom_sharpen_filter_for_clip(&c, &layers, "t"),
        ",unsharp=luma_msize_x=5:luma_msize_y=5:luma_amount=1.0500:chroma_msize_x=5:chroma_msize_y=5:chroma_amount=0.0000:enable='(between(t,0.000000,2.000000))*between((t-(-2.000000)),0,2.000000)'"
    );
    let gate = format!("between({local},0,2.000000)");
    assert_eq!(
        build_motionloom_lut_filter_for_clip(&c, &layers, "T"),
        format!(
            ",geq=r='clip(r(X,Y)*(1+(0.03*(clip((0.400000)*({active})*({envelope})*({gate}),0,1)))),0,255)':g='g(X,Y)':b='clip(b(X,Y)*(1-(0.03*(clip((0.400000)*({active})*({envelope})*({gate}),0,1)))),0,255)':a='alpha(X,Y)'"
        )
    );
    assert!(build_motionloom_hsla_filter_for_clip(&c, &layers, "T").contains("(255.000000)*(clip("));
    let far = vec![ExportLayer { clip: layer(100, 4), script: None }];
    assert!(build_layer_gate_expr_for_clip(&c, &far, "t", false).is_none());
    assert!(build_layer_opacity_factor_expr_for_clip(&c, &far, "t").is_none());
}

#[test]
fn errors_tell_what_happened() {
    assert_eq!(
        ExportError::KeepSourceCopyUnavailable.message(),
        "Keep Source (Copy) is unavailable for current timeline/output setup."
    );
    let s = || "io".to_string();
    let all = [
        (ExportError::GpuOpacityPathUnavailable { reason: s() }, "io"),
        (
            ExportError::InitializeGpuOpacityProcessor { message: s() },
            "Failed to initialize GPU opacity processor: io",
        ),
        (ExportError::SubtitleRender { message: s() }, "io"),
        (ExportError::MissingOutputPathArg, "Failed to build FFmpeg output path."),
        (ExportError::ExecuteFfmpeg { source: s() }, "Failed to execute FFmpeg: io"),
        (
            ExportError::ExecuteStageFfmpeg { stage: "decode", source: s() },
            "Failed to execute decode FFmpeg: io",
        ),
        (ExportError::MissingProgressOutput, "Failed to capture FFmpeg progress output."),
        (ExportError::MissingErrorOutput, "Failed to capture FFmpeg error output."),
        (
            ExportError::MissingFfmpegPipe { stage: "encode", pipe: "stdin" },
            "Missing encode FFmpeg stdin pipe.",
        ),
        (ExportError::ReadFfmpegProgress { source: s() }, "Failed to read FFmpeg progress: io"),
        (
            ExportError::ReadFfmpegFrame { stage: "decode", source: s() },
            "Failed to read decode FFmpeg frame stream: io",
        ),
        (
            ExportError::WriteFfmpegFrame { stage: "encode", source: s() },
            "Failed to write encode FFmpeg frame stream: io",
        ),
        (ExportError::WaitFfmpegProcess { source: s() }, "Failed waiting FFmpeg process: io"),
        (
            ExportError::WaitStageFfmpegProcess { stage: "encode", source: s() },
            "Failed waiting encode FFmpeg process: io",
        ),
        (ExportError::FfmpegFailed { stderr: s() }, "FFmpeg failed.\nSTDERR:\nio"),
        (
            ExportError::ProcessGpuOpacityFrame { message: s() },
            "Failed to process GPU opacity frame: io",
        ),
        (ExportError::MissingInternalState { state: "x" }, "Internal export state missing: x"),
        (ExportError::Cancelled, "__ANICA_EXPORT_CANCELLED__"),
        (
            ExportError::ReplaceExistingOutput { source: s() },
            "Failed to replace existing output file: io",
        ),
        (ExportError::FinalizeOutput { source: s() }, "Failed to finalize output file: io"),
    ];
    for (e, text) in all {
        assert_eq!(e.message(), text);
    }
    assert_eq!(
        stage_failure("decode", "exit 1", "  \n").message(),
        "decode FFmpeg failed (exit 1).\nSTDERR:\nempty stderr"
    );
    assert_eq!(
        stage_failure("encode", "exit 1", " bad \n").message(),
        "encode FFmpeg failed (exit 1).\nSTDERR:\nbad"
    );
    assert!(is_cancelled_export_error(" __ANICA_EXPORT_CANCELLED__\n"));
    assert!(!is_cancelled_export_error("no"));
}

#[test]
fn gpu_plans_for_one_clip() {
    let mut c = clip(1, "/a.mp4", 0, 10);
    c.source_in = at(1);
    let s = ExportSettings::default();
    let run = plan_single_clip_run(&c, None, 4, 2, &s, "/o.mp4").unwrap();
    assert_eq!(run.frame_bytes, 32);
    assert_eq!((run.fps, run.local_start), (30, at(0)));
    assert_eq!(run.decode_args[5], "1.000000");
    assert_eq!(run.decode_args[12], "fps=30,setsar=1,scale=w=4:h=2:force_original_aspect_ratio=decrease:eval=frame,pad=4:2:(ow-iw)/2:(oh-ih)/2:black,format=rgba");
    assert_eq!(run.encode_args[7], "4x2");
    assert_eq!(run.encode_args.last().unwrap(), "/o.mp4");
    let outside = Some(ExportRange { start: at(0), end: at(11) });
    assert_eq!(
        plan_single_clip_run(&c, outside, 4, 2, &s, "/o").unwrap_err().message(),
        "export range falls outside clip"
    );
    let short = Some(ExportRange { start: at(1), end: at(1) });
    assert_eq!(
        plan_single_clip_run(&c, short, 4, 2, &s, "/o").unwrap_err().message(),
        "effective duration is too short"
    );
    assert_eq!(
        find_part(&c, Some(ExportRange { start: at(2), end: at(5) })),
        ClipPart::Part { local_start: at(2), duration: at(3) }
    );
    assert_eq!(bytes_of_frame(1920, 1080), 8294400);
}

#[test]
fn gpu_plans_for_several_tracks() {
    let v1 = clip(1, "/a.mp4", 0, 10);
    let mut over = VideoTrack::new("V2".into());
    over.clips.push(clip(2, "/p.png", 4, 20));
    let tracks = vec![VideoTrack::new("V3".into()), over];
    let s = ExportSettings::default();
    let run = plan_multitrack_run(&v1, &tracks, None, at(10), 4, 2, &s, "/o.mp4").unwrap();
    assert_eq!(
        run.clips,
        vec![
            TrackClipSpec {
                track: None,
                active_start: at(0),
                active_end: at(10),
                source_start: at(0)
            },
            TrackClipSpec {
                track: Some(1),
                active_start: at(4),
                active_end: at(10),
                source_start: at(0)
            },
        ]
    );
    let away = Some(ExportRange { start: at(20), end: at(30) });
    assert_eq!(
        plan_multitrack_run(&v1, &tracks, away, at(10), 4, 2, &s, "/o").unwrap_err().message(),
        "V1 clip does not intersect export range"
    );
    let spec = run.clips[1];
    assert_eq!(layer_step(spec, at(3), false, false), LayerStep::Skip);
    assert_eq!(layer_step(spec, at(4), false, false), LayerStep::Start);
    assert_eq!(layer_step(spec, at(5), true, false), LayerStep::Read);
    assert_eq!(layer_step(spec, at(10), true, false), LayerStep::Stop);
    assert_eq!(layer_step(spec, at(10), true, true), LayerStep::Skip);
    let args = build_clip_decode_rgba_args(&tracks[1].clips[0], at(0), at(6), 4, 2, 30);
    assert_eq!(&args[4..12], ["-loop", "1", "-framerate", "30", "-t", "6.000000", "-i", "/p.png"]);
    assert!(args[14].contains("color=black@0"));
    assert_eq!(time_of_frame(1, 30), Duration { nanos: 33_333_333 });
    assert_eq!(count_frames(at(2), 30), 60);
    assert_eq!(count_frames(ms(280), 25), 8);
    assert_eq!(count_frames(Duration { nanos: 1 }, 30), 1);
    assert_eq!(progress_at_frame(8, 30, at(9)), Some(Duration { nanos: 266_666_667 }));
    assert_eq!(progress_at_frame(9, 30, at(9)), None);
}

#[test]
fn pictures_are_laid_over_each_other() {
    let mut dst = vec![10, 20, 30, 255, 1, 2, 3, 4, 9];
    alpha_over_rgba(&mut dst, &vec![200, 100, 0, 128, 7, 8, 9, 0]);
    assert_eq!(dst, vec![105, 60, 15, 255, 1, 2, 3, 4, 9]);
    let mut full = vec![1, 2, 3, 4];
    alpha_over_rgba(&mut full, &vec![9, 8, 7, 255]);
    assert_eq!(full, vec![9, 8, 7, 255]);
}

#[test]
fn first_commands_by_mode() {
    let s = ExportSettings::default();
    let plain = timeline(vec![plain_clip(1, "/a.mp4", 0, 10)]);
    let c = content(vec![plain_clip(1, "/a.mp4", 0, 10)], at(10));
    let first = |mode, t: &ExportTimeline, preset| {
        FfmpegExporter::first_command(
            mode,
            t,
            &c,
            &look(),
            None,
            preset,
            &s,
            false,
            "/o.mp4",
        )
    };
    assert!(matches!(
        first(ExportMode::SmartUniversal, &plain, ExportPreset::H264Mp4),
        Ok(FirstCommand::Copy(_))
    ));
    assert!(matches!(
        first(ExportMode::PresetReencode, &plain, ExportPreset::H264Mp4),
        Ok(FirstCommand::Filters)
    ));
    let edited = timeline(vec![clip(1, "/a.mp4", 0, 10)]);
    assert!(matches!(
        first(ExportMode::KeepSourceCopy, &edited, ExportPreset::H264Mp4),
        Err(ExportError::KeepSourceCopyUnavailable)
    ));
    assert!(matches!(
        first(ExportMode::KeepSourceCopy, &edited, ExportPreset::Flac),
        Ok(FirstCommand::Sound(_))
    ));
    let mut faded = clip(1, "/a.mp4", 0, 10);
    faded.set_opacity(num(0.5));
    let seen_through = timeline(vec![faded.clone()]);
    assert!(matches!(
        first(ExportMode::SmartUniversal, &seen_through, ExportPreset::H264VideotoolboxMp4),
        Ok(FirstCommand::Gpu(GpuCommand::SingleClip(_)))
    ));
    assert_eq!(
        FfmpegExporter::gpu_path(ExportMode::SmartUniversal, &seen_through, ExportPreset::H264VideotoolboxMp4),
        GpuPath::SingleClip
    );
    assert_eq!(
        FfmpegExporter::gpu_path(ExportMode::SmartUniversal, &seen_through, ExportPreset::H264Mp4),
        GpuPath::Neither
    );
    let mut two = timeline(vec![faded.clone()]);
    let mut track = VideoTrack::new("V2".into());
    track.clips.push(faded);
    two.overlays.push(track);
    assert_eq!(
        FfmpegExporter::gpu_path(ExportMode::SmartUniversal, &two, ExportPreset::H264VideotoolboxMp4),
        GpuPath::Multitrack
    );
}

#[test]
fn progress_is_read_line_by_line() {
    let mut r = ProgressReader::new();
    assert_eq!(r.take_line("out_time_us=1500000"), LineStep::Nothing);
    assert_eq!(r.rendered, ms(1500));
    assert_eq!(r.take_line(" out_time_ms=2000000 "), LineStep::Nothing);
    assert_eq!(r.rendered, at(2));
    assert_eq!(r.take_line("out_time_us=N/A"), LineStep::Nothing);
    assert_eq!(r.rendered, at(2));
    assert_eq!(r.take_line("speed= 1.25x"), LineStep::Nothing);
    assert_eq!(r.speed.as_deref(), Some("1.25"));
    assert_eq!(r.take_line("progress=continue"), LineStep::Report);
    assert_eq!(r.take_line("progress=end"), LineStep::ReportEnd);
    assert_eq!(r.take_line("frame=3"), LineStep::Nothing);
    assert_eq!(r.rendered_of(at(1)), at(1));
    assert_eq!(strip_prefix("abc", "ab").as_deref(), Some("c"));
    assert_eq!(strip_prefix("abc", "b"), None);
    let args = with_progress_args(vec!["-y".into(), "/o".into()]).unwrap();
    assert_eq!(args, ["-y", "-nostats", "-loglevel", "error", "-progress", "pipe:1", "/o"]);
    assert!(matches!(with_progress_args(vec![]), Err(ExportError::MissingOutputPathArg)));
    assert_eq!(
        temp_output_name(&Some("film".into()), &Some("mov".into())),
        "film.anica.tmp.mov"
    );
    assert_eq!(temp_output_name(&None, &Some(String::new())), "anica_export.anica.tmp.mp4");
    assert_eq!(temp_output_path("/a/b/film.v2.mov"), "/a/b/film.v2.anica.tmp.mov");
    assert_eq!(temp_output_path("/film"), "/film.anica.tmp.mp4");
    assert_eq!(temp_output_path("film.webm"), "film.anica.tmp.webm");
    assert_eq!(
        temp_output_path("/My Films/Été (1).mp4"),
        "/My Films/Été (1).anica.tmp.mp4"
    );
    assert_eq!(temp_output_path("out/.hidden"), "out/.hidden.anica.tmp.mp4");
    assert_eq!(temp_output_path("a/b."), "a/b.anica.tmp.mp4");
    assert_eq!(temp_output_path("../out.mov"), "../out.anica.tmp.mov");
    assert_eq!(temp_output_path("./a/../out.mov"), "./a/../out.anica.tmp.mov");
    assert_ne!(temp_output_path("/a//film.anica.tmp.mp4"), "/a//film.anica.tmp.mp4");
    assert_ne!(temp_output_path("/a/film.mp4/"), "/a/film.mp4/");
    assert_eq!(temp_output_path("/a/b/.."), "/a/b/anica_export.anica.tmp.mp4");
}

#[test]
fn failures_are_tried_again_at_most_twice() {
    let mut a = ExportAttempt::new(ExportPreset::H264VideotoolboxMp4, false);
    assert_eq!(
        a.after_failure(true),
        AfterFailure::Retry { preset: ExportPreset::H264Mp4, without_masks: false }
    );
    assert_eq!(
        a.after_failure(true),
        AfterFailure::Retry { preset: ExportPreset::H264Mp4, without_masks: true }
    );
    assert_eq!(a.after_failure(true), AfterFailure::Fail);
    let mut copy = ExportAttempt::new(ExportPreset::H264VideotoolboxMp4, true);
    assert_eq!(copy.after_failure(true), AfterFailure::Fail);
    let mut calm = ExportAttempt::new(ExportPreset::H264Mp4, false);
    assert_eq!(calm.after_failure(false), AfterFailure::Fail);
}

#[test]
fn session_goes_from_start_to_end() {
    let mut s = ExportSession::new(ExportPreset::H264Mp4, GpuPath::SingleClip, at(10));
    let a = s.advance(ExportEvent::GpuEnded { outcome: GpuOutcome::Failed, cancel_requested: false });
    assert!(matches!(a, ExportAction::ChooseCommand));
    let a = s.advance(ExportEvent::Chosen { copies: false, draws: true });
    assert!(matches!(a, ExportAction::DrawSubtitles));
    assert!(matches!(s.advance(ExportEvent::Drawn), ExportAction::RunChosen));
    s.advance(ExportEvent::Line { text: "out_time_us=99000000".into(), cancel_requested: false });
    let a = s.advance(ExportEvent::Line { text: "progress=end".into(), cancel_requested: false });
    assert!(matches!(a, ExportAction::ReportAndWait { rendered, .. } if rendered == at(10)));
    let a = s.advance(ExportEvent::Ended { success: false, crashed: true, cancel_requested: false });
    assert!(matches!(a, ExportAction::RunRebuilt { without_masks: true, .. }));
    let a = s.advance(ExportEvent::Ended { success: true, crashed: false, cancel_requested: false });
    assert!(matches!(a, ExportAction::PutInPlace));
    assert_eq!(s.phase, ExportPhase::Over);
    assert!(matches!(s.advance(ExportEvent::Drawn), ExportAction::Nothing));
}

#[test]
fn cancelled_session_gives_no_output() {
    let mut s = ExportSession::new(ExportPreset::H264Mp4, GpuPath::Neither, at(10));
    s.advance(ExportEvent::Chosen { copies: true, draws: false });
    let a = s.advance(ExportEvent::Line { text: "frame=1".into(), cancel_requested: true });
    assert!(matches!(a, ExportAction::Cancel));
    assert_eq!(s.phase, ExportPhase::Over);
    let mut t = ExportSession::new(ExportPreset::H264Mp4, GpuPath::Neither, at(10));
    assert!(matches!(t.advance(ExportEvent::NothingChosen), ExportAction::Refuse));
}

#[test]
fn opacity_words_choose_the_filter() {
    let mut c = clip(1, "/a.mp4", 0, 2);
    assert_eq!(build_opacity_filter(&c, &words(), OpacityMode::AlphaOnly, false, &None), "");
    c.set_opacity(num(0.5));
    let mut w = words();
    w.short_opacity = "0.5000".into();
    assert_eq!(
        build_opacity_filter(&c, &w, OpacityMode::AlphaOnly, false, &None),
        ",colorchannelmixer=aa=0.5000"
    );
    assert_eq!(
        build_opacity_filter(&c, &w, OpacityMode::MultiplyRgb, false, &None),
        ",colorchannelmixer=rr=0.5000:gg=0.5000:bb=0.5000"
    );
    w.opacity = "0.500000".into();
    w.fade = Some("F".into());
    w.dissolve = Some("D".into());
    assert_eq!(
        build_opacity_filter(&c, &w, OpacityMode::AlphaOnly, true, &Some("L".to_string())),
        ",geq=r='r(X,Y)':g='g(X,Y)':b='b(X,Y)':a='alpha(X,Y)*((((0.500000)*(F))*(D))*(L))'"
    );
}

#[test]
fn colours_are_changed_fast_or_exactly() {
    let mut c = clip(1, "/a.mp4", 0, 2);
    let l = look();
    let eq = |c: &Clip, w: &ClipWords, gate: &Option<String>, mode| {
        build_eq_filter(c, w, &l.adjust, gate, gate, mode)
    };
    assert_eq!(eq(&c, &words(), &None, ExportColorMode::Exact), "");
    c.set_brightness(num(0.5));
    let mut w = words();
    w.brightness = "0.500000".into();
    assert_eq!(
        eq(&c, &w, &None, ExportColorMode::Hybrid),
        ",eq=brightness='0.500000':contrast='1.000000':saturation='1.000000'"
    );
    assert_eq!(
        eq(&c, &w, &Some("G".into()), ExportColorMode::Fast),
        ",eq=brightness='clip((0.500000)+(0.000000)*(G),-1,1)':contrast='clip((1.000000)*(1+(0.000000)*(G)),0,2)':saturation='clip((1.000000)*(1+(0.000000)*(G)),0,2)':eval=frame"
    );
    assert!(eq(&c, &w, &None, ExportColorMode::Exact).starts_with(",geq=r='clip((((0.2126*r(X,Y)"));
}

#[test]
fn filters_are_written_around_their_words() {
    assert_eq!(between_text("t", "1.0", "2.0"), "between(t,1.0,2.0)");
    assert_eq!(if_before_text("t", "1.5", "a", "b"), "if(lt(t,1.5),a,b)");
    assert_eq!(
        trim_filter_text("[a]", "1.000000", "2.000000", "[b]"),
        "[a]trim=start=1.000000:end=2.000000,setpts=PTS-STARTPTS[b]"
    );
    assert_eq!(volume_filter_text("[a]", "0.5", "[b]"), "[a]volume=0.5[b]");
}

#[test]
fn only_untouched_clips_are_copied() {
    let mut blurred = plain_clip(1, "/a.mp4", 0, 10);
    blurred.set_blur_keyframe(at(1), num(3.0));
    assert!(!blurred.blur_keyframes.is_empty());
    assert!(build_copy_ffmpeg_cmd(&timeline(vec![blurred]), None, "/o.mp4").is_none());
    let mut under = timeline(vec![plain_clip(1, "/a.mp4", 0, 10)]);
    let mut fading = layer(0, 5);
    fading.fade_in = at(1);
    under.layers.push(fading);
    assert!(under.effects.is_identity());
    assert!(build_copy_ffmpeg_cmd(&under, None, "/o.mp4").is_none());
    under.layers.clear();
    assert!(build_copy_ffmpeg_cmd(&under, None, "/o.mp4").is_some());
}

#[test]
fn copy_alone_is_refused_where_a_clip_is_seen_through() {
    let mut faded = plain_clip(1, "/a.mp4", 0, 10);
    faded.set_opacity(num(0.5));
    let t = timeline(vec![faded.clone()]);
    let preset = ExportPreset::H264VideotoolboxMp4;
    assert_eq!(
        FfmpegExporter::gpu_path(ExportMode::PresetReencode, &t, preset),
        GpuPath::SingleClip
    );
    let path = FfmpegExporter::gpu_path(ExportMode::KeepSourceCopy, &t, preset);
    assert_eq!(path, GpuPath::Neither);
    let mut s = ExportSession::new(preset, path, at(10));
    assert_eq!(s.phase, ExportPhase::Choosing);
    let first = FfmpegExporter::first_command(
        ExportMode::KeepSourceCopy,
        &t,
        &content(vec![faded], at(10)),
        &look(),
        None,
        preset,
        &ExportSettings::default(),
        false,
        "/o.mp4",
    );
    assert!(matches!(first, Err(ExportError::KeepSourceCopyUnavailable)));
    assert!(matches!(s.advance(ExportEvent::NothingChosen), ExportAction::Refuse));
}

#[test]
fn failed_copy_is_given_up() {
    let mut s = ExportSession::new(ExportPreset::H264VideotoolboxMp4, GpuPath::Neither, at(10));
    s.advance(ExportEvent::Chosen { copies: true, draws: false });
    let a = s.advance(ExportEvent::Ended { success: false, crashed: true, cancel_requested: false });
    assert!(matches!(a, ExportAction::GiveUp));
}

#[test]
fn colours_follow_the_keyframes_of_the_clip() {
    let mut c = clip(1, "/a.mp4", 0, 2);
    c.set_brightness_keyframe(at(1), num(0.5));
    let mut w = words();
    w.brightness_keys = vec!["0.500000".into()];
    let l = look();
    assert_eq!(
        build_eq_filter(&c, &w, &l.adjust, &None, &None, ExportColorMode::Fast),
        ",eq=brightness='0.500000':contrast='1.000000':saturation='1.000000':eval=frame"
    );
    assert!(build_eq_filter(&c, &w, &l.adjust, &None, &None, ExportColorMode::Hybrid)
        .starts_with(",geq="));
}

#[test]
fn overlay_hue_is_within_a_turn() {
    let hue = |text: &str| {
        script(vec![pass("color_core.wgsl", "hsla", &[("hue", text), ("a", "0.3")])])
            .plan
            .hsla_overlay
            .unwrap()
            .hue
    };
    for x in [
        0.0, -0.0, 1.5, 359.999, 360.0, 361.0, 720.5, 1.0e6, 1.0e17, 3.0e300, f64::MAX, -1.0, -0.1,
        -359.5, -360.0, -361.0, -720.25, -1.0e17, -1.0e-13, -1.0e-14, -1.0e-40, -5.0e-324, 5.0e-324,
        -2.5e300, 45.123456789, -45.123456789, 1234567.891, -1234567.891,
    ] {
        let wanted: f64 = f64::rem_euclid(x, 360.0);
        assert_eq!(bring_within_turn(dbl(x)), dbl(wanted), "{x}");
    }
    assert!(bring_within_turn(dbl(f64::NAN)).is_nan());
    assert!(bring_within_turn(dbl(f64::NEG_INFINITY)).is_nan());
    assert_eq!(hue("-90"), dbl(270.0));
    assert_eq!(hue("450"), dbl(90.0));
}

#[test]
fn pictures_are_counted_as_products_are_rounded() {
    for secs in [
        0.0, 0.28, 0.29, 1.0 / 3.0, 0.1, 2.7, 1.0e-12, 5.0e-324, 12345.678, 1.0e15, 1.0e18, 1.0e300,
    ] {
        for rate in [1u32, 24, 25, 30, 60, 144, u32::MAX] {
            let wanted = ((secs * f64::from(rate)).ceil() as u64).max(1);
            assert_eq!(count_pictures(dbl(secs), rate), wanted, "{secs} {rate}");
        }
    }
    assert_eq!(count_pictures(dbl(f64::INFINITY), 30), u64::MAX);
    assert_eq!(count_pictures(dbl(f64::NAN), 30), 1);
    assert_eq!(count_pictures(dbl(-2.0), 30), 1);
    assert_eq!(count_pictures(dbl(2.0), 0), 1);
}
