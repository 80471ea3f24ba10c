use music_motion::audio::engine::AudioEngine;
use music_motion::audio::gsmtc::{encode_thumbnail, thumbnail_data_uri, thumbnail_size_accepted, GsmtcMonitor, MediaSessionInfo};
use music_motion::audio::linux_mpris::{artist_string, is_mpris_player, player_app_name, ArtistValue, LinuxMediaInfo, PlayerSelection};
use music_motion::audio::schedule::PollSchedule;
use music_motion::audio::state::{metered_audio_state, player_audio_state, AudioState};
use music_motion::audio::wasapi::{image_file_name, needs_process_name, unnamed_process, ProcessAudioInfo, SessionSample, WasapiMonitor};
use std::sync::atomic::Ordering;

fn bits(x: f32) -> u32 {
    x.to_bits()
}

fn sample(pid: Option<u32>, active: bool, peak: f32, name: &str) -> SessionSample {
    SessionSample { pid, active, peak_bits: bits(peak), process_name: name.to_string() }
}

fn app(name: &str, pid: u32, peak: f32) -> ProcessAudioInfo {
    ProcessAudioInfo { name: name.to_string(), pid, peak_bits: bits(peak) }
}

fn media(title: &str, artist: &str, playing: bool, source: &str) -> MediaSessionInfo {
    MediaSessionInfo {
        is_available: !title.is_empty() || !artist.is_empty(),
        is_playing: playing,
        title: title.to_string(),
        artist: artist.to_string(),
        album: "Album".to_string(),
        source_app: source.to_string(),
        thumbnail_base64: None,
    }
}

#[test]
fn session_audibility() {
    assert!(needs_process_name(Some(10), true, 0));
    assert!(needs_process_name(Some(10), false, bits(0.002)));
    assert!(!needs_process_name(Some(10), false, bits(0.001)));
    assert!(!needs_process_name(Some(10), false, 0));
    assert!(!needs_process_name(Some(0), true, bits(0.5)));
    assert!(!needs_process_name(None, true, bits(0.5)));
}

#[test]
fn aggregate_sessions_merges_by_process() {
    let m = WasapiMonitor::new();
    assert!(m.is_initialized());
    let samples = vec![
        sample(Some(7), true, 0.2, "chrome.exe"),
        sample(None, true, 0.9, ""),
        sample(Some(9), false, 0.0005, ""),
        sample(Some(12), false, 0.3, "spotify.exe"),
        sample(Some(7), false, 0.6, "chrome.exe"),
        sample(Some(7), true, 0.1, "chrome.exe"),
        sample(Some(0), true, 0.4, ""),
    ];
    let (peak, list) = m.aggregate_sessions(&samples);
    assert_eq!(f32::from_bits(peak), 0.9);
    assert_eq!(list.len(), 2);
    assert_eq!(list[0].name, "chrome.exe");
    assert_eq!(list[0].pid, 7);
    assert_eq!(f32::from_bits(list[0].peak_bits), 0.6);
    assert_eq!(list[1].name, "spotify.exe");
    assert_eq!(list[1].pid, 12);
    assert_eq!(f32::from_bits(list[1].peak_bits), 0.3);
}

#[test]
fn aggregate_no_sessions() {
    let (peak, list) = WasapiMonitor::new().aggregate_sessions(&Vec::new());
    assert_eq!(f32::from_bits(peak), 0.0);
    assert!(list.is_empty());
}

#[test]
fn unnamed_process_name() {
    assert_eq!(unnamed_process(1234), "App (1234)");
    assert_eq!(unnamed_process(0), "App (0)");
    assert_eq!(unnamed_process(u32::MAX), "App (4294967295)");
}

#[test]
fn metered_state_with_media() {
    let apps = vec![app("chrome.exe", 7, 0.2)];
    let m = Some(media("Song", "Band", true, "Spotify.exe"));
    let s = metered_audio_state(bits(0.0), apps, &m);
    assert!(s.has_audio);
    assert!(s.is_playing);
    assert_eq!(s.track_title, "Song");
    assert_eq!(s.artist, "Band");
    assert_eq!(s.album, "Album");
    assert_eq!(s.source_app, "Spotify.exe");
    assert_eq!(s.active_apps.len(), 1);
}

#[test]
fn metered_state_threshold() {
    let s = metered_audio_state(bits(0.006), Vec::new(), &None);
    assert!(s.has_audio);
    assert!(!s.is_playing);
    let s = metered_audio_state(bits(0.004), Vec::new(), &None);
    assert!(!s.has_audio);
    let s = metered_audio_state(bits(0.005), Vec::new(), &None);
    assert!(!s.has_audio);
    assert_eq!(s.source_app, "");
}

#[test]
fn metered_state_unavailable_media_is_ignored() {
    let m = Some(media("", "", true, "Player"));
    let s = metered_audio_state(0, Vec::new(), &m);
    assert!(!s.has_audio);
    assert!(!s.is_playing);
    assert_eq!(s.source_app, "");
}

#[test]
fn metered_state_loudest_process_stands_in() {
    let apps = vec![app("a.exe", 1, 0.5), app("b.exe", 22, 0.7), app("c.exe", 3, 0.7), app("d.exe", 4, 0.1)];
    let s = metered_audio_state(bits(0.7), apps, &None);
    assert_eq!(s.source_app, "c.exe");
    assert_eq!(s.track_title, "c.exe");
    assert_eq!(s.artist, "PID 3");
    assert!(s.has_audio);
    let apps = vec![app("game.exe", 4021, 0.3)];
    let s = metered_audio_state(bits(0.3), apps, &Some(media("", "", false, "")));
    assert_eq!(s.artist, "PID 4021");
}

#[test]
fn default_audio_state() {
    let s = AudioState::default();
    assert!(!s.has_audio && !s.is_playing);
    assert_eq!(s.overall_peak_bits, 0);
    assert!(s.thumbnail.is_none());
    assert!(s.active_apps.is_empty());
}

fn linux_info(title: &str, playing: bool) -> LinuxMediaInfo {
    LinuxMediaInfo::from_player(
        "org.mpris.MediaPlayer2.vlc",
        Some(if playing { "Playing".to_string() } else { "Paused".to_string() }),
        Some(title.to_string()),
        Some(ArtistValue::Name("Artist".to_string())),
        None,
        Some("file:///art.png".to_string()),
    )
}

#[test]
fn player_state_playing() {
    let s = player_audio_state(&Some(linux_info("Track", true)), bits(0.5));
    assert!(s.has_audio && s.is_playing);
    assert_eq!(f32::from_bits(s.overall_peak_bits), 0.5);
    assert_eq!(s.source_app, "vlc");
    assert_eq!(s.thumbnail.as_deref(), Some("file:///art.png"));
    assert_eq!(s.active_apps.len(), 1);
    assert_eq!(s.active_apps[0].name, "vlc");
    assert_eq!(s.active_apps[0].pid, 0);
    assert_eq!(f32::from_bits(s.active_apps[0].peak_bits), 0.5);
}

#[test]
fn player_state_paused() {
    let s = player_audio_state(&Some(linux_info("Track", false)), bits(0.5));
    assert!(!s.has_audio && !s.is_playing);
    assert_eq!(s.overall_peak_bits, 0);
    assert_eq!(s.track_title, "Track");
    assert_eq!(s.active_apps.len(), 1);
    assert_eq!(s.active_apps[0].peak_bits, 0);
}

#[test]
fn player_state_unavailable() {
    let s = player_audio_state(&Some(linux_info("", true)), bits(0.5));
    assert!(!s.has_audio);
    assert!(s.active_apps.is_empty());
    let s = player_audio_state(&None, bits(0.5));
    assert!(!s.has_audio);
    assert_eq!(s.track_title, "");
}

#[test]
fn poll_schedule_periods() {
    let mut sch = PollSchedule::new();
    let mut reasserts = Vec::new();
    let mut refreshes = Vec::new();
    for n in 1..=130u32 {
        let step = sch.advance(true);
        if step.reassert_topmost {
            reasserts.push(n);
        }
        if step.refresh_media {
            refreshes.push(n);
        }
    }
    assert_eq!(reasserts, vec![60, 120]);
    assert_eq!(refreshes.len(), 21);
    assert!(refreshes.iter().all(|n| n % 6 == 0));
}

#[test]
fn poll_schedule_refreshes_without_cache() {
    let mut sch = PollSchedule::new();
    let step = sch.advance(false);
    assert!(step.refresh_media);
    assert!(!step.reassert_topmost);
    let step = sch.advance(true);
    assert!(!step.refresh_media);
}

#[test]
fn audio_engine_stop_clears_flag() {
    let engine = AudioEngine::new();
    let flag = engine.running_flag();
    assert!(flag.load(Ordering::Relaxed));
    engine.stop();
    assert!(!flag.load(Ordering::Relaxed));
}

#[test]
fn thumbnail_size_bounds() {
    assert!(!thumbnail_size_accepted(0));
    assert!(thumbnail_size_accepted(1));
    assert!(thumbnail_size_accepted(5 * 1024 * 1024 - 1));
    assert!(!thumbnail_size_accepted(5 * 1024 * 1024));
}

#[test]
fn thumbnail_encoding() {
    assert_eq!(encode_thumbnail(&[1, 2, 3]), "data:image/jpeg;base64,AQID");
    assert_eq!(encode_thumbnail(&[0xff, 0xd8]), "data:image/jpeg;base64,/9g=");
    assert_eq!(encode_thumbnail(&[]), "data:image/jpeg;base64,");
    assert_eq!(thumbnail_data_uri("QUJD"), "data:image/jpeg;base64,QUJD");
}

#[test]
fn media_session_defaults() {
    let _monitor = GsmtcMonitor::new();
    let m = MediaSessionInfo::from_session(None, false, None, None, None, None);
    assert!(!m.is_available);
    assert_eq!(m.source_app, "Music Player");
    assert_eq!(m.title, "");
    assert!(m.thumbnail_base64.is_none());
    let m = MediaSessionInfo::from_session(
        Some("Spotify.exe".to_string()),
        true,
        None,
        Some("Band".to_string()),
        Some("LP".to_string()),
        Some(vec![b'M', b'a', b'n']),
    );
    assert!(m.is_available && m.is_playing);
    assert_eq!(m.source_app, "Spotify.exe");
    assert_eq!(m.artist, "Band");
    assert_eq!(m.album, "LP");
    assert_eq!(m.thumbnail_base64.as_deref(), Some("data:image/jpeg;base64,TWFu"));
}

#[test]
fn mpris_names() {
    assert!(is_mpris_player("org.mpris.MediaPlayer2.spotify"));
    assert!(is_mpris_player("org.mpris.MediaPlayer2."));
    assert!(!is_mpris_player("org.mpris.MediaPlayer2"));
    assert!(!is_mpris_player("org.freedesktop.DBus"));
    assert_eq!(player_app_name("org.mpris.MediaPlayer2.spotify"), "spotify");
    assert_eq!(player_app_name("org.mpris.MediaPlayer2.org.mpris.MediaPlayer2.x"), "x");
    assert_eq!(player_app_name("org.mpris.MediaPlayer2.firefox.instance_1_42"), "firefox.instance_1_42");
}

#[test]
fn artist_texts() {
    let v = vec!["A".to_string(), "B".to_string(), "C".to_string()];
    assert_eq!(artist_string(Some(ArtistValue::Names(v))), "A, B, C");
    assert_eq!(artist_string(Some(ArtistValue::Names(vec!["Solo".to_string()]))), "Solo");
    assert_eq!(artist_string(Some(ArtistValue::Names(Vec::new()))), "");
    assert_eq!(artist_string(Some(ArtistValue::Name("X".to_string()))), "X");
    assert_eq!(artist_string(None), "");
}

#[test]
fn player_info_fields() {
    let i = LinuxMediaInfo::from_player("org.mpris.MediaPlayer2.rhythmbox", None, None, None, None, None);
    assert!(!i.is_available && !i.is_playing);
    assert_eq!(i.source_app, "rhythmbox");
    assert!(!i.drives_meter());
    let i = linux_info("T", true);
    assert!(i.is_available && i.is_playing && i.drives_meter());
    let i = LinuxMediaInfo::from_player("org.mpris.MediaPlayer2.a", Some("playing".to_string()), Some("T".to_string()), None, None, None);
    assert!(!i.is_playing);
}

#[test]
fn selection_prefers_first_playing() {
    let mut sel = PlayerSelection::new();
    assert!(!sel.offer(linux_info("", false)));
    assert!(!sel.offer(linux_info("First", false)));
    assert!(!sel.offer(linux_info("Second", false)));
    assert!(sel.offer(linux_info("Playing", true)));
    let chosen = sel.finish().unwrap();
    assert_eq!(chosen.title, "Playing");
}

#[test]
fn selection_falls_back_to_first_available() {
    let mut sel = PlayerSelection::new();
    assert!(!sel.offer(linux_info("", false)));
    assert!(!sel.offer(linux_info("First", false)));
    assert!(!sel.offer(linux_info("Second", false)));
    assert_eq!(sel.finish().unwrap().title, "First");
    assert!(PlayerSelection::new().finish().is_none());
}

#[test]
fn image_file_names() {
    assert_eq!(image_file_name("\\Device\\HarddiskVolume3\\Program Files\\Spotify\\Spotify.exe").as_deref(), Some("Spotify.exe"));
    assert_eq!(image_file_name("C:\\Windows\\explorer.exe").as_deref(), Some("explorer.exe"));
    assert_eq!(image_file_name("C:game.exe").as_deref(), Some("game.exe"));
    assert_eq!(image_file_name("a/b/c.exe").as_deref(), Some("c.exe"));
    assert_eq!(image_file_name("dir\\app.exe\\").as_deref(), Some("app.exe"));
    assert_eq!(image_file_name("dir\\app.exe\\.").as_deref(), Some("app.exe"));
    assert_eq!(image_file_name("dir\\..").as_deref(), None);
    assert_eq!(image_file_name("a\\..\\b.exe").as_deref(), Some("b.exe"));
    assert_eq!(image_file_name("plain.exe").as_deref(), Some("plain.exe"));
    assert_eq!(image_file_name("").as_deref(), None);
    assert_eq!(image_file_name("\\").as_deref(), None);
    assert_eq!(image_file_name("C:").as_deref(), None);
}

#[test]
fn base64_cover_art_text() {
    assert_eq!(encode_thumbnail(&[0xff, 0xd8, 0xff]), "data:image/jpeg;base64,/9j/");
    assert_eq!(encode_thumbnail(b"Ma"), "data:image/jpeg;base64,TWE=");
    assert_eq!(encode_thumbnail(b"Man is"), "data:image/jpeg;base64,TWFuIGlz");
}

#[test]
fn empty_media_defaults() {
    let m = MediaSessionInfo::default();
    assert!(!m.is_available && !m.is_playing);
    assert_eq!(m.source_app, "");
    assert!(m.thumbnail_base64.is_none());
    let l = LinuxMediaInfo::default();
    assert!(!l.is_available && !l.is_playing);
    assert_eq!(l.title, "");
    assert!(l.thumbnail_url.is_none());
    let c = l.clone();
    assert_eq!(c.artist, "");
}
