use connected::ffi::{MediaCommand, MediaState};
use connected::mpris::{
    choose_player, media_error_message, now_playing, update_of_state, volume_action, PlayerSeen,
    PlayerStatus, VolumeAction,
};

fn p(id: &str, status: PlayerStatus) -> PlayerSeen {
    PlayerSeen { identity: id.to_string(), status }
}

#[test]
fn commands_go_to_the_best_player() {
    let last = Some("vlc".to_string());
    let ps = vec![p("mpv", PlayerStatus::Paused), p("vlc", PlayerStatus::Stopped), p("spot", PlayerStatus::Playing)];
    assert_eq!(choose_player(&ps, &last), Some(2));
    let ps = vec![p("mpv", PlayerStatus::Paused), p("vlc", PlayerStatus::Stopped), p("tot", PlayerStatus::Unknown)];
    assert_eq!(choose_player(&ps, &last), Some(1));
    assert_eq!(choose_player(&ps, &None), Some(0));
    let ps = vec![p("tot", PlayerStatus::Unknown), p("mpv", PlayerStatus::Stopped)];
    assert_eq!(choose_player(&ps, &None), Some(0));
    assert_eq!(choose_player(&vec![], &None), None);
}

#[test]
fn volume_keys_act_on_the_system() {
    assert_eq!(volume_action(&MediaCommand::VolumeUp), Some(VolumeAction::Raise));
    assert_eq!(volume_action(&MediaCommand::VolumeDown), Some(VolumeAction::Lower));
    assert_eq!(volume_action(&MediaCommand::Play), None);
}

#[test]
fn now_playing_needs_a_track_or_playback() {
    assert!(now_playing(None, None, None, false).is_none());
    assert!(now_playing(None, None, None, true).is_some());
    let s = now_playing(Some("T".to_string()), None, Some("A".to_string()), false).unwrap();
    let u = update_of_state(s);
    assert_eq!(u.album.as_deref(), Some("A"));
    assert!(!u.playing);
    let m = MediaState { title: None, artist: Some("X".to_string()), album: None, playing: true };
    assert_eq!(update_of_state(m).artist.as_deref(), Some("X"));
}

#[test]
fn media_session_errors_are_explained() {
    assert_eq!(media_error_message(-2147024809, "x"), "No media is currently playing");
    assert_eq!(media_error_message(-2147023728, "x"), "No media player found");
    assert_eq!(media_error_message(-2147024891, "x"), "No permission to control audio");
    assert_eq!(media_error_message(5, "boom"), "Media control failed (boom)");
}
