//! Media players reached over the MPRIS D-Bus interface: which bus names are
//! players, what is kept of a player, and which player is shown.

use vstd::prelude::*;
use crate::text::{opt_view, string_or_empty, view_or_empty, has_prefix, joined, str_equal, str_starts_with, string_views, strip_prefix_repeatedly, trim_start_matches, join_strings};

verus! {

/// What is kept of one media player.
#[derive(Clone, Debug)]
pub struct LinuxMediaInfo {
    pub is_available: bool,
    pub is_playing: bool,
    pub title: String,
    pub artist: String,
    pub album: String,
    pub source_app: String,
    pub thumbnail_url: Option<String>,
}

/// The mathematical value of a [`LinuxMediaInfo`].
pub struct LinuxMediaView {
    pub is_available: bool,
    pub is_playing: bool,
    pub title: Seq<char>,
    pub artist: Seq<char>,
    pub album: Seq<char>,
    pub source_app: Seq<char>,
    pub thumbnail_url: Option<Seq<char>>,
}

impl View for LinuxMediaInfo {
    type V = LinuxMediaView;

    open spec fn view(&self) -> LinuxMediaView {
        LinuxMediaView {
            is_available: self.is_available,
            is_playing: self.is_playing,
            title: self.title@,
            artist: self.artist@,
            album: self.album@,
            source_app: self.source_app@,
            thumbnail_url: opt_view(self.thumbnail_url),
        }
    }
}

/// A player of which nothing is known: unavailable, not playing, all texts
/// empty, no cover art.
pub open spec fn empty_player() -> LinuxMediaView {
    LinuxMediaView {
        is_available: false,
        is_playing: false,
        title: Seq::empty(),
        artist: Seq::empty(),
        album: Seq::empty(),
        source_app: Seq::empty(),
        thumbnail_url: None,
    }
}

impl Default for LinuxMediaInfo {
    fn default() -> (res: Self)
        ensures
            res@ == empty_player(),
    {
        LinuxMediaInfo {
            is_available: false,
            is_playing: false,
            title: String::new(),
            artist: String::new(),
            album: String::new(),
            source_app: String::new(),
            thumbnail_url: None,
        }
    }
}

/// The bus-name prefix of MPRIS media players.
pub open spec fn mpris_prefix() -> Seq<char> {
    "org.mpris.MediaPlayer2."@
}

/// Whether a bus name belongs to an MPRIS media player.
pub fn is_mpris_player(bus_name: &str) -> (res: bool)
    ensures
        res == has_prefix(bus_name@, mpris_prefix()),
{
    str_starts_with(bus_name, "org.mpris.MediaPlayer2.")
}

/// The application name of a player: its bus name without the MPRIS prefix
/// (every leading copy of it removed).
pub fn player_app_name(bus_name: &str) -> (res: String)
    ensures
        res@ == strip_prefix_repeatedly(bus_name@, mpris_prefix()),
{
    trim_start_matches(bus_name, "org.mpris.MediaPlayer2.")
}

/// The artist entry of a player's metadata: a list of names or one name.
#[derive(Debug)]
pub enum ArtistValue {
    Names(Vec<String>),
    Name(String),
}

/// The artist text shown for an artist entry: list entries are joined with
/// ", "; a missing entry gives the empty text.
pub open spec fn artist_text(artist: Option<ArtistValue>) -> Seq<char> {
    match artist {
        Some(ArtistValue::Names(v)) => joined(string_views(v@), ", "@),
        Some(ArtistValue::Name(s)) => s@,
        None => Seq::empty(),
    }
}

/// The text of an artist entry.
pub fn artist_string(artist: Option<ArtistValue>) -> (res: String)
    ensures
        res@ == artist_text(artist),
{
    match artist {
        Some(ArtistValue::Names(v)) => join_strings(&v, ", "),
        Some(ArtistValue::Name(s)) => s,
        None => String::new(),
    }
}

/// The value kept of a player with the given bus name, playback status and
/// metadata entries (missing ones taken as empty): it plays when its status
/// is "Playing" and is available when it has a title.
pub open spec fn player_info(
    bus_name: Seq<char>,
    status: Seq<char>,
    title: Seq<char>,
    artist: Seq<char>,
    album: Seq<char>,
    art_url: Option<Seq<char>>,
) -> LinuxMediaView {
    LinuxMediaView {
        is_available: title.len() > 0,
        is_playing: status == "Playing"@,
        title,
        artist,
        album,
        source_app: strip_prefix_repeatedly(bus_name, mpris_prefix()),
        thumbnail_url: art_url,
    }
}

/// A player is available exactly when it has a title and plays exactly when
/// its status is "Playing"; its texts and cover art are kept as read; and
/// its application name is its bus name with all leading copies of the MPRIS
/// prefix removed, so it no longer begins with that prefix.
pub proof fn lemma_player_info_fields(
    bus_name: Seq<char>,
    status: Seq<char>,
    title: Seq<char>,
    artist: Seq<char>,
    album: Seq<char>,
    art_url: Option<Seq<char>>,
)
    ensures
        ({
            let p = player_info(bus_name, status, title, artist, album, art_url);
            &&& p.is_available <==> title.len() > 0
            &&& p.is_playing <==> status == "Playing"@
            &&& p.title == title && p.artist == artist && p.album == album
            &&& p.thumbnail_url == art_url
            &&& !has_prefix(p.source_app, mpris_prefix())
            &&& exists|k: nat| bus_name == crate::text::repeated(mpris_prefix(), k) + p.source_app
        }),
{
    reveal_strlit("org.mpris.MediaPlayer2.");
    crate::text::lemma_strip_prefix_repeatedly(bus_name, mpris_prefix());
}

/// A single artist name is shown as it is; a list of names is shown with
/// ", " between neighbours, each name whole.
pub proof fn lemma_artist_text(artist: Option<ArtistValue>)
    ensures
        artist matches Some(ArtistValue::Name(s)) ==> artist_text(artist) == s@,
        artist is None ==> artist_text(artist).len() == 0,
        artist matches Some(ArtistValue::Names(v)) ==> (v@.len() > 0 ==> artist_text(artist).len()
            == crate::text::total_len(string_views(v@)) + (v@.len() - 1) * 2),
{
    reveal_strlit(", ");
    if let Some(ArtistValue::Names(v)) = artist {
        crate::text::lemma_joined_length(string_views(v@), ", "@);
    }
}

impl LinuxMediaInfo {
    /// Assembles what was read of one player.
    pub fn from_player(
        bus_name: &str,
        status: Option<String>,
        title: Option<String>,
        artist: Option<ArtistValue>,
        album: Option<String>,
        art_url: Option<String>,
    ) -> (res: LinuxMediaInfo)
        ensures
            res@ == player_info(
                bus_name@,
                view_or_empty(status),
                view_or_empty(title),
                artist_text(artist),
                view_or_empty(album),
                opt_view(art_url),
            ),
    {
        let status = string_or_empty(status);
        let is_playing = str_equal(status.as_str(), "Playing");
        let title = string_or_empty(title);
        let artist = artist_string(artist);
        let album = string_or_empty(album);
        let source_app = player_app_name(bus_name);
        let is_available = !title.as_str().is_empty();
        LinuxMediaInfo { is_available, is_playing, title, artist, album, source_app, thumbnail_url: art_url }
    }

    /// Whether this player drives the simulated level meter: it is
    /// available and playing.
    pub fn drives_meter(&self) -> (res: bool)
        ensures
            res == (self.is_available && self.is_playing),
    {
        self.is_available && self.is_playing
    }
}

/// The choice among players while they are being read: the first playing
/// one, and the first available one.
pub struct PlayerSelection {
    pub playing: Option<LinuxMediaInfo>,
    pub fallback: Option<LinuxMediaInfo>,
}

/// The mathematical value of a [`PlayerSelection`].
pub struct SelectionView {
    pub playing: Option<LinuxMediaView>,
    pub fallback: Option<LinuxMediaView>,
}

/// The value of an optional player.
pub open spec fn opt_media_view(m: Option<LinuxMediaInfo>) -> Option<LinuxMediaView> {
    match m {
        Some(i) => Some(i@),
        None => None,
    }
}

impl View for PlayerSelection {
    type V = SelectionView;

    open spec fn view(&self) -> SelectionView {
        SelectionView { playing: opt_media_view(self.playing), fallback: opt_media_view(self.fallback) }
    }
}

/// The selection after one more player was read: a playing player is
/// taken and ends the search; otherwise the first available player is kept
/// as the fallback.
pub open spec fn select_step(sel: SelectionView, info: LinuxMediaView) -> SelectionView {
    if info.is_playing {
        SelectionView { playing: Some(info), ..sel }
    } else if sel.fallback is None && info.is_available {
        SelectionView { fallback: Some(info), ..sel }
    } else {
        sel
    }
}

/// The player shown: the playing one, else the fallback.
pub open spec fn selection_result(sel: SelectionView) -> Option<LinuxMediaView> {
    if sel.playing is Some {
        sel.playing
    } else {
        sel.fallback
    }
}

impl PlayerSelection {
    /// A selection before any player was read.
    pub fn new() -> (res: Self)
        ensures
            res@ == (SelectionView { playing: None, fallback: None }),
    {
        PlayerSelection { playing: None, fallback: None }
    }

    /// Takes one more player into account; says whether the search is over.
    pub fn offer(&mut self, info: LinuxMediaInfo) -> (done: bool)
        ensures
            final(self)@ == select_step(old(self)@, info@),
            done == info.is_playing,
    {
        if info.is_playing {
            self.playing = Some(info);
            true
        } else {
            if self.fallback.is_none() && info.is_available {
                self.fallback = Some(info);
            }
            false
        }
    }

    /// The player shown: the playing one, else the fallback, else none.
    pub fn finish(self) -> (res: Option<LinuxMediaInfo>)
        ensures
            opt_media_view(res) == selection_result(self@),
    {
        match self.playing {
            Some(p) => Some(p),
            None => self.fallback,
        }
    }
}

/// The selection after reading the given players in order, from an empty
/// one.
pub open spec fn select_all(infos: Seq<LinuxMediaView>) -> SelectionView
    decreases infos.len(),
{
    if infos.len() == 0 {
        SelectionView { playing: None, fallback: None }
    } else {
        select_step(select_all(infos.drop_last()), infos.last())
    }
}

/// The first available player of a sequence, if any.
pub open spec fn first_available(infos: Seq<LinuxMediaView>) -> Option<LinuxMediaView>
    decreases infos.len(),
{
    if infos.len() == 0 {
        None
    } else if infos[0].is_available {
        Some(infos[0])
    } else {
        first_available(infos.subrange(1, infos.len() as int))
    }
}

/// While no player read so far plays, nothing is taken as playing, and the
/// fallback is an available player read before any other available one; there
/// is no fallback exactly when no player read is available.
pub proof fn lemma_fallback_is_earliest_available(infos: Seq<LinuxMediaView>)
    requires
        forall|i: int| 0 <= i < infos.len() ==> !(#[trigger] infos[i]).is_playing,
    ensures
        select_all(infos).playing is None,
        select_all(infos).fallback is None <==> forall|i: int| 0 <= i < infos.len() ==> !(#[trigger] infos[i]).is_available,
        select_all(infos).fallback matches Some(f) ==> exists|i: int|
            0 <= i < infos.len() && infos[i] == f && f.is_available && forall|j: int|
                0 <= j < i ==> !(#[trigger] infos[j]).is_available,
    decreases infos.len(),
{
    if infos.len() > 0 {
        let front = infos.drop_last();
        assert forall|i: int| 0 <= i < front.len() implies !(#[trigger] front[i]).is_playing by {
            assert(front[i] == infos[i]);
        }
        lemma_fallback_is_earliest_available(front);
        let last = infos.len() - 1;
        assert(infos[last] == infos.last());
        if select_all(front).fallback is None {
            assert forall|j: int| 0 <= j < last implies !(#[trigger] infos[j]).is_available by {
                assert(front[j] == infos[j]);
            }
        } else {
            let f = select_all(front).fallback->0;
            let i = choose|i: int|
                0 <= i < front.len() && front[i] == f && f.is_available && forall|j: int|
                    0 <= j < i ==> !(#[trigger] front[j]).is_available;
            assert(infos[i] == front[i]);
            assert forall|j: int| 0 <= j < i implies !(#[trigger] infos[j]).is_available by {
                assert(front[j] == infos[j]);
            }
        }
    }
}

/// While no player read so far plays, the shown player is the first
/// available one; the search ends at the first playing player, which is then
/// the one shown.
pub proof fn lemma_selection_prefers_playing(infos: Seq<LinuxMediaView>)
    ensures
        (forall|i: int| 0 <= i < infos.len() ==> !(#[trigger] infos[i]).is_playing) ==> select_all(infos)
            == (SelectionView { playing: None, fallback: first_available(infos) }),
        infos.len() > 0 && infos.last().is_playing ==> selection_result(select_all(infos)) == Some(infos.last()),
    decreases infos.len(),
{
    if infos.len() > 0 {
        let front = infos.drop_last();
        lemma_selection_prefers_playing(front);
        if forall|i: int| 0 <= i < infos.len() ==> !(#[trigger] infos[i]).is_playing {
            assert forall|i: int| 0 <= i < front.len() implies !(#[trigger] front[i]).is_playing by {
                assert(front[i] == infos[i]);
            }
            lemma_first_available_push(front, infos.last());
            assert(front.push(infos.last()) =~= infos);
        }
    }
}

proof fn lemma_first_available_push(front: Seq<LinuxMediaView>, x: LinuxMediaView)
    ensures
        first_available(front.push(x)) == if first_available(front) is Some {
            first_available(front)
        } else if x.is_available {
            Some(x)
        } else {
            None
        },
    decreases front.len(),
{
    let s = front.push(x);
    if front.len() > 0 {
        assert(s[0] == front[0]);
        assert(s.subrange(1, s.len() as int) =~= front.subrange(1, front.len() as int).push(x));
        lemma_first_available_push(front.subrange(1, front.len() as int), x);
    } else {
        assert(s[0] == x);
        assert(s.subrange(1, s.len() as int) =~= Seq::<LinuxMediaView>::empty());
        assert(first_available(s.subrange(1, s.len() as int)) is None);
    }
}

} // verus!
