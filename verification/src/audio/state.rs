//! The audio state sent to the overlay on every poll, assembled from the
//! audio sessions and the media session.

use vstd::prelude::*;
use crate::audio::gsmtc::{MediaSessionInfo, MediaSessionView};
use crate::text::opt_view;
use crate::audio::linux_mpris::{LinuxMediaInfo, LinuxMediaView};
use crate::audio::wasapi::{ProcessAudioInfo, ProcessAudioView, process_views};
use crate::text::{append_decimal, decimal};

verus! {

/// Bit pattern of the `f32` value 0.005: an overall peak above it means
/// that sound is playing.
pub const HAS_AUDIO_PEAK_BITS: u32 = 0x3ba3_d70a;

/// What the overlay is told on every poll.
#[derive(Clone, Debug)]
pub struct AudioState {
    pub has_audio: bool,
    pub overall_peak_bits: u32,
    pub is_playing: bool,
    pub track_title: String,
    pub artist: String,
    pub album: String,
    pub thumbnail: Option<String>,
    pub source_app: String,
    pub active_apps: Vec<ProcessAudioInfo>,
}

/// The mathematical value of an [`AudioState`].
pub struct AudioStateView {
    pub has_audio: bool,
    pub overall_peak_bits: u32,
    pub is_playing: bool,
    pub track_title: Seq<char>,
    pub artist: Seq<char>,
    pub album: Seq<char>,
    pub thumbnail: Option<Seq<char>>,
    pub source_app: Seq<char>,
    pub active_apps: Seq<ProcessAudioView>,
}

impl View for AudioState {
    type V = AudioStateView;

    open spec fn view(&self) -> AudioStateView {
        AudioStateView {
            has_audio: self.has_audio,
            overall_peak_bits: self.overall_peak_bits,
            is_playing: self.is_playing,
            track_title: self.track_title@,
            artist: self.artist@,
            album: self.album@,
            thumbnail: opt_view(self.thumbnail),
            source_app: self.source_app@,
            active_apps: process_views(self.active_apps@),
        }
    }
}

/// The state when nothing is known: silent, nothing playing, all texts
/// empty, no processes.
pub open spec fn silent_state() -> AudioStateView {
    AudioStateView {
        has_audio: false,
        overall_peak_bits: 0,
        is_playing: false,
        track_title: Seq::empty(),
        artist: Seq::empty(),
        album: Seq::empty(),
        thumbnail: None,
        source_app: Seq::empty(),
        active_apps: Seq::empty(),
    }
}

impl Default for AudioState {
    fn default() -> (res: Self)
        ensures
            res@ == silent_state(),
    {
        let res = AudioState {
            has_audio: false,
            overall_peak_bits: 0,
            is_playing: false,
            track_title: String::new(),
            artist: String::new(),
            album: String::new(),
            thumbnail: None,
            source_app: String::new(),
            active_apps: Vec::new(),
        };
        assert(process_views(res.active_apps@) =~= Seq::empty());
        res
    }
}

/// The index of the loudest process; among equally loud ones the last.
pub open spec fn loudest_index(apps: Seq<ProcessAudioView>) -> int
    decreases apps.len(),
{
    if apps.len() <= 1 {
        0
    } else {
        let i = loudest_index(apps.drop_last());
        if apps.last().peak_bits >= apps[i].peak_bits {
            apps.len() - 1
        } else {
            i
        }
    }
}

/// The state on a system with audio-session metering: the overall peak
/// decides whether sound is playing; an available media session supplies the
/// track and can only add that sound is playing; without a source
/// application, the loudest process stands in, its name as title and
/// "PID <pid>" as artist.
pub open spec fn metered_state(
    peak_bits: u32,
    apps: Seq<ProcessAudioView>,
    media: Option<MediaSessionView>,
) -> AudioStateView {
    let base = AudioStateView {
        has_audio: peak_bits > HAS_AUDIO_PEAK_BITS,
        overall_peak_bits: peak_bits,
        active_apps: apps,
        ..silent_state()
    };
    let with_media = match media {
        Some(m) => if m.is_available {
            AudioStateView {
                track_title: m.title,
                artist: m.artist,
                album: m.album,
                thumbnail: m.thumbnail_base64,
                source_app: m.source_app,
                is_playing: m.is_playing,
                has_audio: base.has_audio || m.is_playing,
                ..base
            }
        } else {
            base
        },
        None => base,
    };
    if with_media.source_app.len() == 0 && apps.len() > 0 {
        let top = apps[loudest_index(apps)];
        AudioStateView {
            source_app: top.name,
            track_title: top.name,
            artist: "PID "@ + decimal(top.pid as nat),
            ..with_media
        }
    } else {
        with_media
    }
}

/// The value of an optional media session.
pub open spec fn opt_session_view(m: Option<MediaSessionInfo>) -> Option<MediaSessionView> {
    match m {
        Some(i) => Some(i@),
        None => None,
    }
}

fn clone_opt_string(s: &Option<String>) -> (res: Option<String>)
    ensures
        opt_view(res) == opt_view(*s),
{
    match s {
        Some(t) => Some(t.clone()),
        None => None,
    }
}

fn loudest(apps: &Vec<ProcessAudioInfo>) -> (res: usize)
    requires
        apps@.len() > 0,
    ensures
        res == loudest_index(process_views(apps@)),
        res < apps@.len(),
{
    let ghost views = process_views(apps@);
    let mut best: usize = 0;
    let mut i: usize = 1;
    while i < apps.len()
        invariant
            1 <= i <= apps@.len(),
            views == process_views(apps@),
            best < i,
            best == loudest_index(views.take(i as int)),
        decreases apps@.len() - i,
    {
        assert(views.take(i + 1).drop_last() =~= views.take(i as int));
        assert(views.take(i as int)[best as int] == views[best as int]);
        if apps[i].peak_bits >= apps[best].peak_bits {
            best = i;
        }
        i = i + 1;
    }
    assert(views.take(apps@.len() as int) =~= views);
    best
}

/// The audio state on a system with audio-session metering.
pub fn metered_audio_state(
    peak_bits: u32,
    active_apps: Vec<ProcessAudioInfo>,
    media: &Option<MediaSessionInfo>,
) -> (res: AudioState)
    ensures
        res@ == metered_state(peak_bits, process_views(active_apps@), opt_session_view(*media)),
{
    let mut state = AudioState::default();
    state.overall_peak_bits = peak_bits;
    state.has_audio = peak_bits > HAS_AUDIO_PEAK_BITS;
    state.active_apps = active_apps;
    match media {
        Some(m) => {
            if m.is_available {
                state.track_title = m.title.clone();
                state.artist = m.artist.clone();
                state.album = m.album.clone();
                state.thumbnail = clone_opt_string(&m.thumbnail_base64);
                state.source_app = m.source_app.clone();
                state.is_playing = m.is_playing;
                if m.is_playing {
                    state.has_audio = true;
                }
            }
        },
        None => {},
    }
    if state.source_app.as_str().is_empty() && state.active_apps.len() > 0 {
        let top = loudest(&state.active_apps);
        let name = state.active_apps[top].name.clone();
        let pid = state.active_apps[top].pid;
        state.source_app = name.clone();
        state.track_title = name;
        let mut artist = String::from_str("PID ");
        append_decimal(&mut artist, pid);
        state.artist = artist;
    }
    state
}

/// The value of an optional player.
pub open spec fn opt_player_view(m: Option<LinuxMediaInfo>) -> Option<LinuxMediaView> {
    match m {
        Some(i) => Some(i@),
        None => None,
    }
}

/// The state on a system without audio-session metering: an available
/// player supplies the track, plays exactly when it plays, shows the given
/// simulated peak while playing (0 otherwise), and is listed as the one
/// process, with process id 0 and that peak.
pub open spec fn player_state(media: Option<LinuxMediaView>, playing_peak_bits: u32) -> AudioStateView {
    match media {
        Some(m) => if m.is_available {
            let peak: u32 = if m.is_playing {
                playing_peak_bits
            } else {
                0
            };
            AudioStateView {
                has_audio: m.is_playing,
                overall_peak_bits: peak,
                is_playing: m.is_playing,
                track_title: m.title,
                artist: m.artist,
                album: m.album,
                thumbnail: m.thumbnail_url,
                source_app: m.source_app,
                active_apps: seq![ProcessAudioView { name: m.source_app, pid: 0, peak_bits: peak }],
            }
        } else {
            silent_state()
        },
        None => silent_state(),
    }
}

/// The audio state on a system without audio-session metering.
pub fn player_audio_state(media: &Option<LinuxMediaInfo>, playing_peak_bits: u32) -> (res: AudioState)
    ensures
        res@ == player_state(opt_player_view(*media), playing_peak_bits),
{
    let mut state = AudioState::default();
    match media {
        Some(m) => {
            if m.is_available {
                state.track_title = m.title.clone();
                state.artist = m.artist.clone();
                state.album = m.album.clone();
                state.source_app = m.source_app.clone();
                state.thumbnail = clone_opt_string(&m.thumbnail_url);
                state.is_playing = m.is_playing;
                state.has_audio = m.is_playing;
                if m.is_playing {
                    state.overall_peak_bits = playing_peak_bits;
                }
                state.active_apps.push(
                    ProcessAudioInfo { name: m.source_app.clone(), pid: 0, peak_bits: state.overall_peak_bits },
                );
                assert(process_views(state.active_apps@) =~= seq![
                    ProcessAudioView { name: m.source_app@, pid: 0, peak_bits: state.overall_peak_bits },
                ]);
            }
        },
        None => {},
    }
    state
}


/// The loudest process is a listed one, no process is louder, and every
/// process listed after it is quieter: among equally loud processes the last
/// one is taken.
pub proof fn lemma_loudest_index(apps: Seq<ProcessAudioView>)
    requires
        apps.len() > 0,
    ensures
        0 <= loudest_index(apps) < apps.len(),
        forall|j: int| 0 <= j < apps.len() ==> (#[trigger] apps[j]).peak_bits <= apps[loudest_index(apps)].peak_bits,
        forall|j: int|
            loudest_index(apps) < j < apps.len() ==> (#[trigger] apps[j]).peak_bits < apps[loudest_index(
                apps,
            )].peak_bits,
    decreases apps.len(),
{
    if apps.len() > 1 {
        let front = apps.drop_last();
        lemma_loudest_index(front);
        let i = loudest_index(front);
        assert(front[i] == apps[i]);
        assert forall|j: int| 0 <= j < apps.len() implies (#[trigger] apps[j]).peak_bits <= apps[loudest_index(
            apps,
        )].peak_bits by {
            if j < apps.len() - 1 {
                assert(front[j] == apps[j]);
            }
        }
        assert forall|j: int| loudest_index(apps) < j < apps.len() implies (#[trigger] apps[j]).peak_bits
            < apps[loudest_index(apps)].peak_bits by {
            if j < apps.len() - 1 {
                assert(front[j] == apps[j]);
            }
        }
    }
}

/// With audio-session metering, sound counts as playing exactly when the
/// overall peak is above 0.005 or an available media session is playing; the
/// overall peak and the process list are passed on unchanged.
pub proof fn lemma_metered_has_audio(peak_bits: u32, apps: Seq<ProcessAudioView>, media: Option<MediaSessionView>)
    ensures
        metered_state(peak_bits, apps, media).has_audio == (peak_bits > HAS_AUDIO_PEAK_BITS || (media matches Some(
            m,
        ) && m.is_available && m.is_playing)),
        metered_state(peak_bits, apps, media).is_playing == (media matches Some(m) && m.is_available
            && m.is_playing),
        metered_state(peak_bits, apps, media).overall_peak_bits == peak_bits,
        metered_state(peak_bits, apps, media).active_apps == apps,
{
}

/// An available media session with a source application decides the track
/// shown; without one, the loudest process is shown as its source.
pub proof fn lemma_metered_track_source(peak_bits: u32, apps: Seq<ProcessAudioView>, media: Option<MediaSessionView>)
    ensures
        (media matches Some(m) && m.is_available && m.source_app.len() > 0) ==> ({
            let st = metered_state(peak_bits, apps, media);
            &&& st.track_title == media->0.title
            &&& st.artist == media->0.artist
            &&& st.album == media->0.album
            &&& st.source_app == media->0.source_app
            &&& st.thumbnail == media->0.thumbnail_base64
        }),
        (!(media matches Some(m) && m.is_available && m.source_app.len() > 0) && apps.len() > 0) ==> ({
            let st = metered_state(peak_bits, apps, media);
            &&& exists|i: int|
                0 <= i < apps.len() && st.source_app == (#[trigger] apps[i]).name && st.track_title == apps[i].name
                    && st.artist == "PID "@ + decimal(apps[i].pid as nat) && forall|j: int|
                    0 <= j < apps.len() ==> (#[trigger] apps[j]).peak_bits <= apps[i].peak_bits
        }),
{
    if apps.len() > 0 {
        lemma_loudest_index(apps);
    }
}

/// The album and cover art shown on a metered system are always those of an
/// available media session, and empty without one: a process standing in as
/// the source changes only the source, title and artist.
pub proof fn lemma_metered_album_and_art(peak_bits: u32, apps: Seq<ProcessAudioView>, media: Option<MediaSessionView>)
    ensures
        (media matches Some(m) && m.is_available) ==> metered_state(peak_bits, apps, media).album == media->0.album
            && metered_state(peak_bits, apps, media).thumbnail == media->0.thumbnail_base64,
        !(media matches Some(m) && m.is_available) ==> metered_state(peak_bits, apps, media).album == Seq::<
            char,
        >::empty() && metered_state(peak_bits, apps, media).thumbnail is None,
{
}

/// On a metered system with neither an available media session nor any
/// sound-producing process, no track and no source are shown.
pub proof fn lemma_metered_nothing_known(peak_bits: u32, media: Option<MediaSessionView>)
    requires
        !(media matches Some(m) && m.is_available),
    ensures
        metered_state(peak_bits, Seq::empty(), media).track_title.len() == 0,
        metered_state(peak_bits, Seq::empty(), media).artist.len() == 0,
        metered_state(peak_bits, Seq::empty(), media).source_app.len() == 0,
        !metered_state(peak_bits, Seq::empty(), media).is_playing,
{
}

/// Without audio-session metering, an available player's track title,
/// artist, album, source application and cover art are shown exactly as the
/// player reports them, and its source application is the one process
/// listed, with process id 0 and the shown peak.
pub proof fn lemma_player_state_shows_player(media: Option<LinuxMediaView>, playing_peak_bits: u32)
    ensures
        (media matches Some(m) && m.is_available) ==> {
            let st = player_state(media, playing_peak_bits);
            let m = media->0;
            &&& st.track_title == m.title
            &&& st.artist == m.artist
            &&& st.album == m.album
            &&& st.source_app == m.source_app
            &&& st.thumbnail == m.thumbnail_url
            &&& st.is_playing == m.is_playing
            &&& st.overall_peak_bits == (if m.is_playing { playing_peak_bits } else { 0 })
            &&& st.active_apps.len() == 1
            &&& st.active_apps[0].name == m.source_app
            &&& st.active_apps[0].pid == 0
            &&& st.active_apps[0].peak_bits == st.overall_peak_bits
        },
        !(media matches Some(m) && m.is_available) ==> {
            let st = player_state(media, playing_peak_bits);
            &&& st.track_title.len() == 0 && st.artist.len() == 0 && st.album.len() == 0
            &&& st.source_app.len() == 0 && st.thumbnail is None
            &&& !st.has_audio && st.overall_peak_bits == 0
        },
{
}

/// Without audio-session metering, sound counts as playing exactly when an
/// available player plays, and an available player is the one process
/// listed.
pub proof fn lemma_player_state(media: Option<LinuxMediaView>, playing_peak_bits: u32)
    ensures
        player_state(media, playing_peak_bits).has_audio == (media matches Some(m) && m.is_available
            && m.is_playing),
        player_state(media, playing_peak_bits).has_audio == player_state(media, playing_peak_bits).is_playing,
        player_state(media, playing_peak_bits).active_apps.len() == if media matches Some(m) && m.is_available {
            1int
        } else {
            0int
        },
        !player_state(media, playing_peak_bits).is_playing ==> player_state(
            media,
            playing_peak_bits,
        ).overall_peak_bits == 0,
{
}

} // verus!
