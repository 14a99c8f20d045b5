use brickbreaker::audio::{first_song, SoundLevels};

#[test]
fn volumes_clamp_and_mute() {
    let mut s = SoundLevels::new();
    assert_eq!(s.get_music_volume(), 64);
    s.set_music_volume(500);
    assert_eq!(s.get_music_volume(), 128);
    s.set_sfx_volume(-3);
    assert_eq!(s.get_sfx_volume(), 0);
    s.set_sfx_volume(90);
    assert_eq!(s.effective_sfx_volume(), 90);
    s.set_sfx_muted(true);
    assert_eq!(s.effective_sfx_volume(), 0);
    assert!(!s.sfx_audible());
    s.toggle_sfx_mute();
    assert!(s.sfx_audible());
    assert!(!s.set_music_muted(true));
    assert_eq!(s.effective_music_volume(), 0);
    assert!(s.toggle_music_mute());
    assert_eq!(s.effective_music_volume(), 128);
}

#[test]
fn songs_follow_one_another() {
    let mut s = SoundLevels::new();
    assert_eq!(s.next_song(3, false), None);
    assert!(!s.start_music(0));
    assert!(s.start_music(3));
    assert_eq!(s.next_song(3, true), None);
    let next = s.next_song(3, false).unwrap();
    assert!(next < 3);
    s.set_music_muted(true);
    assert_eq!(s.next_song(3, false), None);
    s.stop_music();
    assert!(!s.music_should_play);
    assert_eq!(first_song(0), 0);
    assert!(first_song(4) < 4);
}
