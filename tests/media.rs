use kairpods::media::{
    is_media_player_name, is_playing_status, media_players, note_pause, PausedPlayers,
};

#[test]
fn media_player_names_are_recognised() {
    assert!(is_media_player_name("org.mpris.MediaPlayer2.vlc"));
    assert!(!is_media_player_name("org.mpris.MediaPlayer2.kdeconnect.mpris_0"));
    assert!(!is_media_player_name("org.mpris.MediaPlayer2.KDEConnect"));
    assert!(!is_media_player_name("org.freedesktop.DBus"));
    assert!(!is_media_player_name("org.mpris.MediaPlayer2"));
}

#[test]
fn media_players_keep_order_and_skip_others() {
    let names: Vec<String> = [
        "org.freedesktop.Notifications",
        "org.mpris.MediaPlayer2.spotify",
        "org.mpris.MediaPlayer2.kdeconnect.mpris_1",
        "org.mpris.MediaPlayer2.firefox.instance_1_2",
    ]
    .iter()
    .map(|s| s.to_string())
    .collect();
    assert_eq!(
        media_players(&names),
        vec![
            "org.mpris.MediaPlayer2.spotify".to_string(),
            "org.mpris.MediaPlayer2.firefox.instance_1_2".to_string(),
        ]
    );
}

#[test]
fn paused_players_are_resumed_once() {
    let mut paused = PausedPlayers::new();
    assert!(paused.is_empty());
    paused.record(vec!["org.mpris.MediaPlayer2.vlc".to_string()]);
    paused.record(Vec::new());
    assert!(!paused.is_empty());
    assert_eq!(paused.take(), vec!["org.mpris.MediaPlayer2.vlc".to_string()]);
    assert!(paused.is_empty());
    assert!(paused.take().is_empty());
}

#[test]
fn only_exact_playing_status_counts() {
    assert!(is_playing_status("Playing"));
    assert!(!is_playing_status("Paused"));
    assert!(!is_playing_status("Stopped"));
    assert!(!is_playing_status("Play"));
    assert!(!is_playing_status("Playing "));
    assert!(!is_playing_status(""));
}

#[test]
fn pause_round_remembers_only_successful_pauses() {
    let mut paused: Vec<String> = Vec::new();
    note_pause(&mut paused, "org.mpris.MediaPlayer2.a".to_string(), true, true);
    note_pause(&mut paused, "org.mpris.MediaPlayer2.b".to_string(), false, false);
    note_pause(&mut paused, "org.mpris.MediaPlayer2.c".to_string(), true, false);
    note_pause(&mut paused, "org.mpris.MediaPlayer2.d".to_string(), true, true);
    assert_eq!(
        paused,
        vec!["org.mpris.MediaPlayer2.a".to_string(), "org.mpris.MediaPlayer2.d".to_string()]
    );
}
