//! Edits of the timeline.
use anica_core::clip::Clip;
use anica_core::errors::GlobalStateError;
use anica_core::keyframes::Sample;
use anica_core::media_tools::HostPlatform;
use anica_core::modes::{ClipKeyframeChannel, TrackType, TransitionType, V1MoveMode};
use anica_core::scalar::Scalar;
use anica_core::srt::SrtCue;
use anica_core::state::GlobalState;
use anica_core::time::Duration;
use anica_core::trims::{DissolveRoom, TrimAmounts};

fn secs(s: u64) -> Duration {
    Duration::from_secs(s)
}

fn millis(ms: u64) -> Duration {
    Duration::from_millis(ms)
}

fn scalar(x: f32) -> Scalar {
    Scalar::from_bits(x.to_bits())
}

/// A state with sources of the given lengths on the main track.
fn with_sources(lengths: &[u64]) -> GlobalState {
    let mut s = GlobalState::new(HostPlatform::Linux);
    for (i, n) in lengths.iter().enumerate() {
        let name = format!("clip{i}.mp4");
        s.load_source_video(&format!("/media/{name}"), secs(*n));
        s.insert_active_source_v1(secs(*n));
    }
    s
}

fn starts(clips: &[Clip]) -> Vec<u128> {
    clips.iter().map(|c| c.start.as_millis()).collect()
}

fn lengths(clips: &[Clip]) -> Vec<u128> {
    clips.iter().map(|c| c.duration.as_millis()).collect()
}

#[test]
fn new_state_has_one_audio_track() {
    let s = GlobalState::new(HostPlatform::Linux);
    assert_eq!(s.timeline.audio_tracks.len(), 1);
    assert_eq!(s.timeline.audio_tracks[0].name, "A1");
    assert_eq!(s.next_clip_id(), 1);
    assert_eq!(s.media.active_source_name, "No Source Loaded");
    assert_eq!(s.preview.canvas_w, scalar(1920.0));
    assert_eq!(s.preview.canvas_h, scalar(1080.0));
}

#[test]
fn sources_are_appended_one_behind_the_other() {
    let s = with_sources(&[4, 6]);
    assert_eq!(starts(&s.timeline.v1_clips), vec![0, 4000]);
    assert_eq!(lengths(&s.timeline.v1_clips), vec![4000, 6000]);
    assert_eq!(starts(&s.timeline.audio_tracks[0].clips), vec![0, 4000]);
    assert_eq!(
        s.timeline.v1_clips[0].link_group_id,
        s.timeline.audio_tracks[0].clips[0].link_group_id
    );
    assert!(s.timeline.v1_clips[0].link_group_id.is_some());
    assert_ne!(
        s.timeline.v1_clips[0].link_group_id,
        s.timeline.v1_clips[1].link_group_id
    );
}

#[test]
fn undo_and_redo_go_back_and_forth() {
    let mut s = with_sources(&[4]);
    let token = s.timeline_edit_token();
    s.add_new_video_track();
    assert_eq!(s.timeline.video_tracks.len(), 1);
    assert_eq!(s.timeline.video_tracks[0].name, "V2");
    assert_ne!(s.timeline_edit_token(), token);
    s.undo();
    assert_eq!(s.timeline.video_tracks.len(), 0);
    s.redo();
    assert_eq!(s.timeline.video_tracks.len(), 1);
    s.undo();
    s.add_new_audio_track();
    s.redo();
    assert_eq!(s.timeline.video_tracks.len(), 0);
    assert_eq!(s.timeline.audio_tracks.len(), 2);
}

#[test]
fn history_keeps_fifty_edits() {
    let mut s = GlobalState::new(HostPlatform::Linux);
    for _ in 0..60 {
        s.add_new_video_track();
    }
    for _ in 0..60 {
        s.undo();
    }
    assert_eq!(s.timeline.video_tracks.len(), 10);
}

#[test]
fn razor_splits_picture_and_linked_sound() {
    let mut s = with_sources(&[10]);
    s.set_playhead(secs(4));
    assert!(s.razor_v1_at_playhead().is_ok());
    assert_eq!(starts(&s.timeline.v1_clips), vec![0, 4000]);
    assert_eq!(lengths(&s.timeline.v1_clips), vec![4000, 6000]);
    assert_eq!(s.timeline.v1_clips[1].source_in, secs(4));
    assert_eq!(s.timeline.v1_clips[0].file_path, s.timeline.v1_clips[1].file_path);
}

#[test]
fn razor_without_a_clip_is_refused() {
    let mut s = GlobalState::new(HostPlatform::Linux);
    let e = s.razor_v1_at_playhead().unwrap_err();
    assert!(matches!(e, GlobalStateError::NoClipToCut { .. }));
    assert_eq!(e.message(), "No clip to cut on V1");
    s.add_new_subtitle_track();
    let e = s.razor_subtitle_at_playhead(0).unwrap_err();
    assert_eq!(e.message(), "No subtitle to cut on Subtitle Track");
}

#[test]
fn ripple_delete_closes_the_gap() {
    let mut s = with_sources(&[4, 6]);
    assert!(s.ripple_delete_time_range_all_tracks(secs(2), secs(5)));
    assert_eq!(starts(&s.timeline.v1_clips), vec![0, 2000]);
    assert_eq!(lengths(&s.timeline.v1_clips), vec![2000, 5000]);
    assert_eq!(s.timeline.v1_clips[1].source_in, secs(1));
    assert_eq!(starts(&s.timeline.audio_tracks[0].clips), vec![0, 2000]);
}

#[test]
fn taking_out_leaves_what_was_outside() {
    let mut s = with_sources(&[4, 6, 3]);
    let shown = |s: &GlobalState, lane: usize, millis: u64| {
        let clips = if lane == 0 { &s.timeline.v1_clips } else { &s.timeline.audio_tracks[0].clips };
        let t = Duration::from_millis(millis).nanos;
        clips
            .iter()
            .find(|c| c.start.nanos <= t && t < c.start.nanos + c.duration.nanos)
            .map(|c| (c.file_path.clone(), c.source_in.nanos + (t - c.start.nanos)))
    };
    let before: Vec<_> = (0..2)
        .map(|lane| (0..14).map(|k| shown(&s, lane, k * 1000 + 1)).collect::<Vec<_>>())
        .collect();
    assert!(s.ripple_delete_time_range_all_tracks(secs(3), secs(5)));
    for lane in 0..2 {
        for x in 0..12 {
            let y = if x < 3 { x } else { x + 2 };
            assert_eq!(shown(&s, lane, x as u64 * 1000 + 1), before[lane][y], "{lane} {x}");
        }
    }
}

#[test]
fn deleting_a_clip_packs_the_main_track() {
    let mut s = with_sources(&[4, 6, 2]);
    let id = s.timeline.v1_clips[1].id;
    s.selection.selected_clip_id = Some(id);
    s.selection.selected_clip_ids = vec![id];
    assert!(s.delete_selected_items());
    assert_eq!(starts(&s.timeline.v1_clips), vec![0, 4000]);
    assert_eq!(lengths(&s.timeline.v1_clips), vec![4000, 2000]);
    assert_eq!(starts(&s.timeline.audio_tracks[0].clips), vec![0, 4000]);
    assert!(s.timeline.v1_clips.iter().all(|c| c.id != id));
    assert!(!s.delete_selected_items());
}

#[test]
fn magnetic_move_keeps_all_clips() {
    let mut s = with_sources(&[4, 6, 2]);
    let id = s.timeline.v1_clips[2].id;
    s.move_v1_clip_magnetic(id, secs(0));
    assert_eq!(s.timeline.v1_clips[0].id, id);
    assert_eq!(starts(&s.timeline.v1_clips), vec![0, 2000, 6000]);
    assert_eq!(lengths(&s.timeline.v1_clips), vec![2000, 4000, 6000]);
}

#[test]
fn linked_sound_follows_a_free_move() {
    let mut s = with_sources(&[4]);
    s.v1_move_mode = V1MoveMode::Free;
    let id = s.timeline.v1_clips[0].id;
    s.move_v1_clip_free(id, secs(3));
    assert_eq!(starts(&s.timeline.v1_clips), vec![3000]);
    assert_eq!(starts(&s.timeline.audio_tracks[0].clips), vec![3000]);
}

#[test]
fn linking_and_unlinking_selected_clips() {
    let mut s = with_sources(&[4, 6]);
    let a = s.timeline.v1_clips[0].id;
    let b = s.timeline.v1_clips[1].id;
    s.selection.selected_clip_ids = vec![a, b];
    assert!(s.link_selected_clips_into_group());
    let g = s.timeline.v1_clips[0].link_group_id;
    assert!(g.is_some());
    assert_eq!(s.timeline.v1_clips[1].link_group_id, g);
    assert!(s.selected_clips_have_any_link_group());
    assert!(s.unlink_selected_clips_groups());
    assert!(s.timeline.v1_clips[0].link_group_id.is_none());
    assert!(!s.selected_clips_have_any_link_group());
    s.selection.selected_clip_ids = vec![a];
    assert!(!s.link_selected_clips_into_group());
}

#[test]
fn duplicate_goes_behind_the_clip() {
    let mut s = with_sources(&[4, 6]);
    let id = s.timeline.v1_clips[0].id;
    assert!(s.duplicate_timeline_clip_after(TrackType::V1, id));
    assert_eq!(starts(&s.timeline.v1_clips), vec![0, 4000, 8000]);
    assert_eq!(lengths(&s.timeline.v1_clips), vec![4000, 4000, 6000]);
    assert_eq!(s.timeline.v1_clips[1].file_path, s.timeline.v1_clips[0].file_path);
    assert!(s.timeline.v1_clips[1].link_group_id.is_none());
    assert_eq!(s.selection.selected_clip_id, Some(s.timeline.v1_clips[1].id));
    assert!(!s.duplicate_timeline_clip_after(TrackType::V1, 999));
}

#[test]
fn playhead_stays_within_the_sequence() {
    let mut s = with_sources(&[4]);
    s.set_playhead(secs(99));
    assert_eq!(s.timeline.playhead, s.sequence_duration());
}

#[test]
fn fade_is_no_longer_than_the_clip() {
    let mut s = with_sources(&[2]);
    let id = s.timeline.v1_clips[0].id;
    s.selection.selected_clip_id = Some(id);
    s.set_selected_clip_fade_in(scalar(5.0), false);
    assert_eq!(s.get_selected_clip_fade_in(), Some(scalar(2.0)));
    s.set_selected_clip_fade_in(scalar(1.5), false);
    assert_eq!(s.get_selected_clip_fade_in(), Some(scalar(1.5)));
    s.set_selected_clip_fade_in(scalar(-1.0), false);
    assert_eq!(s.get_selected_clip_fade_in(), Some(scalar(0.0)));
    s.set_selected_clip_fade_in(scalar(1.0), true);
    assert_eq!(s.get_selected_clip_fade_in(), Some(scalar(0.0)));
}

#[test]
fn keyframes_are_found_within_their_reach() {
    let mut s = with_sources(&[10]);
    let id = s.timeline.v1_clips[0].id;
    s.selection.selected_clip_id = Some(id);
    s.set_playhead(secs(2));
    s.add_selected_clip_opacity_keyframe(scalar(0.0));
    assert!(s.selected_clip_has_opacity_keyframe());
    s.set_playhead(millis(2030));
    assert!(s.selected_clip_has_opacity_keyframe());
    s.set_playhead(millis(2100));
    assert!(!s.selected_clip_has_opacity_keyframe());
    assert_eq!(
        s.selected_clip_keyframe_times(ClipKeyframeChannel::Opacity),
        vec![secs(2)]
    );
    s.set_playhead(secs(2));
    assert!(s.remove_selected_clip_keyframe_at_playhead(ClipKeyframeChannel::Opacity));
    assert!(!s.selected_clip_has_opacity_keyframe());
}

#[test]
fn value_between_keyframes_lies_on_their_line() {
    let mut s = with_sources(&[10]);
    let id = s.timeline.v1_clips[0].id;
    s.selection.selected_clip_id = Some(id);
    s.timeline.v1_clips[0].set_opacity_keyframe(secs(1), scalar(0.0));
    s.timeline.v1_clips[0].set_opacity_keyframe(secs(3), scalar(1.0));
    s.set_playhead(secs(2));
    match s.get_selected_clip_opacity() {
        Some(Sample::Between { from, to }) => {
            assert_eq!((from.time, to.time), (secs(1), secs(3)));
        }
        other => panic!("{other:?}"),
    }
    s.set_playhead(secs(9));
    assert_eq!(s.get_selected_clip_opacity(), Some(Sample::At(scalar(1.0))));
}

#[test]
fn fade_transition_is_applied_to_a_clip() {
    let mut s = with_sources(&[10]);
    let id = s.timeline.v1_clips[0].id;
    assert!(s.apply_transition_to_clip(id, TransitionType::Fade));
    assert!(!s.apply_transition_to_clip(999, TransitionType::Fade));
    s.begin_transition_drag(TransitionType::Zoom);
    assert!(matches!(s.pending_transition, Some(TransitionType::Zoom)));
    s.clear_transition_drag();
    assert!(s.pending_transition.is_none());
}

fn no_trim(_room: DissolveRoom, _wanted: Scalar) -> TrimAmounts {
    TrimAmounts {
        restore_left: secs(0),
        restore_right: secs(0),
        trim_left: secs(0),
        trim_right: secs(0),
    }
}

#[test]
fn dissolve_needs_a_neighbour() {
    let mut s = with_sources(&[4]);
    s.selection.selected_clip_id = Some(s.timeline.v1_clips[0].id);
    s.set_selected_clip_dissolve_out(scalar(1.0), false, no_trim, |_, _| None);
    assert_eq!(
        s.ui_notice.as_deref(),
        Some("Dissolve requires an adjacent clip on V1.")
    );
}

#[test]
fn dissolve_without_handles_is_refused() {
    let mut s = with_sources(&[4, 4]);
    s.selection.selected_clip_id = Some(s.timeline.v1_clips[0].id);
    s.set_selected_clip_dissolve_out(scalar(1.0), false, no_trim, |_, _| None);
    assert_eq!(
        s.ui_notice.as_deref(),
        Some("Insufficient media (handles) for dissolve.")
    );
    assert_eq!(s.get_selected_clip_dissolve_out(), Some(scalar(0.0)));
    s.set_selected_clip_dissolve_in(scalar(0.0), true, no_trim, |_, _| None);
    assert_eq!(s.get_selected_clip_dissolve_in(), Some(scalar(0.0)));
}

#[test]
fn subtitles_are_imported_apart() {
    let mut s = GlobalState::new(HostPlatform::Linux);
    let cues = vec![
        SrtCue { start: secs(1), end: secs(3), text: "one".to_string() },
        SrtCue { start: secs(2), end: secs(4), text: "two".to_string() },
    ];
    assert_eq!(s.import_srt(Ok(cues)).unwrap(), 2);
    assert_eq!(s.timeline.subtitle_tracks.len(), 2);
    assert_eq!(s.get_selected_subtitle_text().as_deref(), Some("two"));
    let e = s.import_srt(Err("line 1".to_string())).unwrap_err();
    assert_eq!(e.message(), "Failed to parse SRT: line 1");
}

#[test]
fn subtitle_edits_reach_the_selected_one() {
    let mut s = GlobalState::new(HostPlatform::Linux);
    let cues = vec![
        SrtCue { start: secs(1), end: secs(2), text: "one".to_string() },
        SrtCue { start: secs(3), end: secs(4), text: "two".to_string() },
    ];
    s.import_srt(Ok(cues)).unwrap();
    s.set_selected_subtitle_text("zwei".to_string());
    assert_eq!(s.get_selected_subtitle_text().as_deref(), Some("zwei"));
    s.set_selected_subtitle_pos_x(scalar(7.0));
    s.set_selected_subtitle_font_size(scalar(1.0));
    let (x, _, size) = s.get_selected_subtitle_transform().unwrap();
    assert_eq!((x, size), (scalar(1.0), scalar(8.0)));
    s.set_selected_subtitle_color_rgba((1, 2, 3, 4));
    assert_eq!(s.get_selected_subtitle_color_rgba(), Some((1, 2, 3, 4)));
    assert!(s.get_selected_subtitle_font().is_none());
    s.set_selected_subtitle_font(Some("/f.ttf".to_string()), None);
    assert_eq!(
        s.get_selected_subtitle_font(),
        Some(("/f.ttf".to_string(), String::new()))
    );
}

#[test]
fn grouped_subtitles_share_their_group() {
    let mut s = GlobalState::new(HostPlatform::Linux);
    let cues = vec![
        SrtCue { start: secs(1), end: secs(2), text: "one".to_string() },
        SrtCue { start: secs(3), end: secs(4), text: "two".to_string() },
    ];
    s.import_srt(Ok(cues)).unwrap();
    let ids: Vec<u64> = s.timeline.subtitle_tracks[0].clips.iter().map(|c| c.id).collect();
    assert!(s.group_selected_subtitles().is_none());
    s.selection.selected_subtitle_ids = ids.clone();
    let g = s.group_selected_subtitles().unwrap();
    assert!(s.timeline.subtitle_tracks[0].clips.iter().all(|c| c.group_id == Some(g)));
    s.set_selected_subtitle_group_scale(scalar(99.0));
    assert_eq!(
        s.get_selected_subtitle_group_transform(),
        Some((scalar(0.0), scalar(0.0), scalar(4.0)))
    );
    s.selection.selected_subtitle_ids.clear();
    s.select_subtitle_group(g);
    assert_eq!(s.selection.selected_subtitle_ids, ids);
    let clip = s.timeline.subtitle_tracks[0].clips[0].clone();
    let t = s.effective_subtitle_transform(&clip, |c, t| (c.pos_x, c.pos_y, t.scale));
    assert_eq!(t.2, scalar(4.0));
}

#[test]
fn volumes_stay_in_their_range() {
    let mut s = with_sources(&[4]);
    let id = s.timeline.audio_tracks[0].clips[0].id;
    s.selection.selected_clip_id = Some(id);
    assert!(s.set_selected_audio_clip_gain_db(scalar(99.0), false));
    assert_eq!(s.get_selected_audio_clip_gain_db(), Some(scalar(12.0)));
    assert!(s.set_audio_track_gain_db(0, scalar(-99.0), false));
    assert_eq!(s.get_audio_track_gain_db(0), scalar(-60.0));
    assert!(!s.set_audio_track_gain_db(7, scalar(0.0), false));
    assert_eq!(s.get_audio_track_gain_db(7), scalar(0.0));
}

#[test]
fn resizing_needs_an_existing_clip() {
    let mut s = with_sources(&[10]);
    let id = s.timeline.v1_clips[0].id;
    s.resize_clip(TrackType::V1, id, secs(4));
    assert_eq!(lengths(&s.timeline.v1_clips), vec![4000]);
}

#[test]
fn clips_of_used_up_files_are_not_resized() {
    let mut s = with_sources(&[4]);
    let id = s.timeline.v1_clips[0].id;
    assert!(s.try_resize_clip(TrackType::V1, id, secs(2)));
    assert_eq!(lengths(&s.timeline.v1_clips), vec![2000]);
    s.timeline.v1_clips[0].source_in = secs(4);
    assert!(!s.try_resize_clip(TrackType::V1, id, secs(3)));
    assert_eq!(lengths(&s.timeline.v1_clips), vec![2000]);
}

#[test]
fn media_of_a_removed_file_leaves_the_timeline() {
    let mut s = with_sources(&[4, 6, 2]);
    assert_eq!(s.media.media_pool.len(), 3);
    assert!(s.remove_media_pool_item("/media/clip1.mp4"));
    assert_eq!(s.media.media_pool.len(), 2);
    assert_eq!(starts(&s.timeline.v1_clips), vec![0, 4000]);
    assert_eq!(starts(&s.timeline.audio_tracks[0].clips), vec![0, 4000]);
    assert!(!s.remove_media_pool_item("/media/clip1.mp4"));
    s.undo();
    assert_eq!(s.media.media_pool.len(), 3);
    assert_eq!(s.timeline.v1_clips.len(), 3);
}

#[test]
fn media_pool_items_are_unique_and_dragged() {
    let mut s = GlobalState::new(HostPlatform::Linux);
    s.add_media_pool_item("/a.mp4", secs(1));
    s.add_media_pool_item("/a.mp4", secs(2));
    s.add_media_pool_item("/a.txt", secs(2));
    assert_eq!(s.media.media_pool.len(), 1);
    assert_eq!(s.media.media_pool[0].duration, secs(2));
    assert_eq!(s.media.media_pool[0].name, "a.mp4");
    s.add_named_media_pool_item("/named.mp4", &None, secs(1));
    assert_eq!(s.media.media_pool[1].name, "Unknown");
    assert!(s.begin_media_pool_drag("/a.mp4".to_string()));
    s.update_media_pool_drag_cursor(scalar(3.0), scalar(4.0));
    assert_eq!(s.media_pool_drag.as_ref().unwrap().cursor_y, scalar(4.0));
    s.clear_media_pool_drag();
    assert!(s.media_pool_drag.is_none());
    assert!(!s.begin_media_pool_drag("/b.mp4".to_string()));
    assert!(s.open_media_pool_context_menu("/a.mp4".to_string(), scalar(1.0), scalar(1.0)));
    s.close_media_pool_context_menu();
    assert!(!s.open_media_pool_context_menu("/b.mp4".to_string(), scalar(1.0), scalar(1.0)));
    assert!(s.activate_media_pool_item("/a.mp4"));
    assert_eq!(s.media.active_source_path, "/a.mp4");
    s.relocate_media_path("/a.mp4", "/x/b.mp4");
    assert_eq!(s.media.media_pool[0].name, "b.mp4");
    assert_eq!(s.media.active_source_path, "/x/b.mp4");
}

#[test]
fn play_tool_and_page_are_set() {
    let mut s = GlobalState::new(HostPlatform::Linux);
    s.toggle_playing();
    assert!(s.is_playing);
    s.set_next_clip_id(0);
    assert_eq!(s.next_clip_id(), 1);
    s.set_next_clip_id(77);
    assert_eq!(s.next_clip_id(), 77);
    assert!(s.effective_v1_magnetic(false));
    assert!(!s.effective_v1_magnetic(true));
    s.cycle_v1_move_mode();
    assert!(!s.effective_v1_magnetic(false));
}
