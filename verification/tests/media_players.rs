use connected::mpris::{
    foreign_player_names, is_foreign_player, MprisRelay, MprisUpdate, PlaybackState,
    PlayerNameCache, PLAYER_CACHE_TTL_MS,
};

fn update(title: Option<&str>, artist: Option<&str>, playing: bool) -> MprisUpdate {
    MprisUpdate {
        title: title.map(|s| s.to_string()),
        artist: artist.map(|s| s.to_string()),
        album: None,
        playing,
    }
}

#[test]
fn playback_status_follows_playing_and_metadata() {
    assert_eq!(update(Some("Song"), None, true).playback_state(), PlaybackState::Playing);
    assert_eq!(update(Some("Song"), None, false).playback_state(), PlaybackState::Paused);
    assert_eq!(update(None, None, false).playback_state(), PlaybackState::Stopped);
    assert_eq!(update(None, None, true).playback_state(), PlaybackState::Playing);
    let m = update(Some("Song"), Some("Band"), true).metadata();
    assert_eq!(m.title.as_deref(), Some("Song"));
    assert_eq!(m.artists, vec!["Band".to_string()]);
    assert_eq!(m.album, None);
    assert!(update(None, None, true).metadata().artists.is_empty());
}

#[test]
fn repeated_updates_are_published_once() {
    let mut relay = MprisRelay::new();
    let u = update(Some("Song"), Some("Band"), true);
    assert!(relay.offer(u.clone()).is_some());
    assert!(relay.offer(u.clone()).is_none());
    let paused = update(Some("Song"), Some("Band"), false);
    let (state, _) = relay.offer(paused).expect("changed update is published");
    assert_eq!(state, PlaybackState::Paused);
    assert!(relay.offer(u.clone()).is_some());
}

#[test]
fn only_other_applications_players_are_listed() {
    assert!(is_foreign_player("org.mpris.MediaPlayer2.vlc"));
    assert!(!is_foreign_player("org.mpris.MediaPlayer2.playerctld"));
    assert!(!is_foreign_player("org.mpris.MediaPlayer2.kdeconnect.mpris_0"));
    assert!(!is_foreign_player("org.mpris.MediaPlayer2.connected"));
    assert!(is_foreign_player("org.mpris.MediaPlayer2.connected2"));
    assert!(!is_foreign_player("org.freedesktop.DBus"));
    let names: Vec<String> = [
        "org.freedesktop.DBus",
        "org.mpris.MediaPlayer2.spotify",
        "org.mpris.MediaPlayer2.connected",
        "org.mpris.MediaPlayer2.vlc",
    ]
    .iter()
    .map(|s| s.to_string())
    .collect();
    assert_eq!(
        foreign_player_names(&names),
        vec!["org.mpris.MediaPlayer2.spotify".to_string(), "org.mpris.MediaPlayer2.vlc".to_string()]
    );
}

#[test]
fn player_cache_expires() {
    let mut c = PlayerNameCache::new();
    assert!(c.cached(0).is_none());
    let all = vec!["org.mpris.MediaPlayer2.vlc".to_string()];
    assert_eq!(c.refresh(&all, 1_000).len(), 1);
    assert_eq!(c.cached(1_000 + PLAYER_CACHE_TTL_MS - 1).unwrap().len(), 1);
    assert!(c.cached(1_000 + PLAYER_CACHE_TTL_MS).is_none());
    c.refresh(&vec![], 20_000);
    assert!(c.cached(20_001).is_none());
}
