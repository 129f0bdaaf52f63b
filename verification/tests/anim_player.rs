use scene_viewer::anim::{AnimationPlayer, Clip};
use scene_viewer::fixed::FX_ONE;

fn walk_and_run() -> Vec<Clip> {
    vec![
        Clip::new("Walk".to_string(), 2000),
        Clip::new("Run".to_string(), 1500),
    ]
}

#[test]
fn fresh_player_is_idle() {
    let p = AnimationPlayer::new();
    assert_eq!(p.clips.len(), 0);
    assert_eq!(p.current_clip, None);
    assert_eq!(p.time, 0);
    assert_eq!(p.speed, FX_ONE);
    assert!(!p.playing);
}

#[test]
fn add_clips_auto_selects_first_clip() {
    // an idle player with no selection: adding clips selects clip 0 and plays
    let mut p = AnimationPlayer::new();
    p.add_clips(walk_and_run());
    assert_eq!(p.clips.len(), 2);
    assert_eq!(p.current_clip, Some(0));
    assert_eq!(p.time, 0);
    assert!(p.playing);
    assert_eq!(p.clips[0].name, "Walk");
    assert_eq!(p.clips[1].name, "Run");
}

#[test]
fn add_clips_keeps_an_existing_selection() {
    let mut p = AnimationPlayer::new();
    p.add_clips(walk_and_run());
    p.play(1);
    p.add_clips(vec![Clip::new("Jump".to_string(), 800)]);
    assert_eq!(p.clips.len(), 3);
    assert_eq!(p.current_clip, Some(1));
}

#[test]
fn transport_play_pause_resume_stop() {
    let mut p = AnimationPlayer::new();
    p.add_clips(walk_and_run());
    p.set_time(500);
    p.pause();
    assert!(!p.playing);
    assert_eq!(p.time, 500);
    p.resume();
    assert!(p.playing);
    assert_eq!(p.time, 500);
    p.stop();
    assert!(!p.playing);
    assert_eq!(p.time, 0);
}

#[test]
fn scrub_clamps_to_clip_duration() {
    let mut p = AnimationPlayer::new();
    p.add_clips(walk_and_run());
    p.set_time(9999);
    assert_eq!(p.time, 2000);
}

#[test]
fn advance_moves_time_by_speed() {
    let mut p = AnimationPlayer::new();
    p.add_clips(walk_and_run());
    // unit speed: one half second elapsed moves the time by one half second
    p.advance(500);
    assert_eq!(p.time, 500);
    assert!(p.playing);
}

#[test]
fn advance_wraps_when_looping() {
    let mut p = AnimationPlayer::new();
    p.add_clips(walk_and_run());
    p.looping = true;
    p.set_time(1900);
    p.advance(200);
    assert_eq!(p.time, 0);
    assert!(p.playing);
}

#[test]
fn advance_clamps_and_stops_when_not_looping() {
    let mut p = AnimationPlayer::new();
    p.add_clips(walk_and_run());
    p.looping = false;
    p.set_time(1900);
    p.advance(200);
    assert_eq!(p.time, 2000);
    assert!(!p.playing);
}

#[test]
fn advance_does_nothing_while_paused() {
    let mut p = AnimationPlayer::new();
    p.add_clips(walk_and_run());
    p.set_time(700);
    p.pause();
    p.advance(500);
    assert_eq!(p.time, 700);
}

#[test]
fn clear_returns_to_idle() {
    let mut p = AnimationPlayer::new();
    p.add_clips(walk_and_run());
    p.set_time(700);
    p.clear();
    assert_eq!(p.clips.len(), 0);
    assert_eq!(p.current_clip, None);
    assert_eq!(p.time, 0);
    assert!(!p.playing);
}
