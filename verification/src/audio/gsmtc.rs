//! Media sessions reported by the system media transport controls: what is
//! kept of a session and how its cover art is encoded.

use vstd::prelude::*;
use crate::text::{opt_view, string_or_empty, view_or_empty};

verus! {

/// Cover art is read only when its size in bytes is above 0 and below this
/// bound (5 MiB).
pub const MAX_THUMBNAIL_BYTES: u64 = 5_242_880;

/// The media session currently in control of playback.
#[derive(Clone, Debug)]
pub struct MediaSessionInfo {
    pub is_available: bool,
    pub is_playing: bool,
    pub title: String,
    pub artist: String,
    pub album: String,
    pub source_app: String,
    pub thumbnail_base64: Option<String>,
}

/// The mathematical value of a [`MediaSessionInfo`].
pub struct MediaSessionView {
    pub is_available: bool,
    pub is_playing: bool,
    pub title: Seq<char>,
    pub artist: Seq<char>,
    pub album: Seq<char>,
    pub source_app: Seq<char>,
    pub thumbnail_base64: Option<Seq<char>>,
}

impl View for MediaSessionInfo {
    type V = MediaSessionView;

    open spec fn view(&self) -> MediaSessionView {
        MediaSessionView {
            is_available: self.is_available,
            is_playing: self.is_playing,
            title: self.title@,
            artist: self.artist@,
            album: self.album@,
            source_app: self.source_app@,
            thumbnail_base64: opt_view(self.thumbnail_base64),
        }
    }
}

/// A session of which nothing is known: unavailable, not playing, all texts
/// empty, no cover art.
pub open spec fn empty_session() -> MediaSessionView {
    MediaSessionView {
        is_available: false,
        is_playing: false,
        title: Seq::empty(),
        artist: Seq::empty(),
        album: Seq::empty(),
        source_app: Seq::empty(),
        thumbnail_base64: None,
    }
}

impl Default for MediaSessionInfo {
    fn default() -> (res: Self)
        ensures
            res@ == empty_session(),
    {
        MediaSessionInfo {
            is_available: false,
            is_playing: false,
            title: String::new(),
            artist: String::new(),
            album: String::new(),
            source_app: String::new(),
            thumbnail_base64: None,
        }
    }
}

/// The character of the standard Base64 alphabet (`A-Z a-z 0-9 + /`) for a
/// six-bit value.
pub open spec fn base64_digit(v: int) -> char {
    if v < 26 {
        (65 + v) as char
    } else if v < 52 {
        (97 + (v - 26)) as char
    } else if v < 62 {
        (48 + (v - 52)) as char
    } else if v == 62 {
        '+'
    } else {
        '/'
    }
}

/// The standard Base64 encoding (RFC 4648, with `=` padding) of a byte
/// sequence: every group of three bytes gives four characters, each for six
/// bits, most significant first; a last group of one or two bytes is filled
/// with zero bits and padded with `=` to four characters.
pub open spec fn base64_standard(bytes: Seq<u8>) -> Seq<char>
    decreases bytes.len(),
{
    if bytes.len() == 0 {
        Seq::empty()
    } else if bytes.len() == 1 {
        let b0 = bytes[0] as int;
        seq![base64_digit(b0 / 4), base64_digit((b0 % 4) * 16), '=', '=']
    } else if bytes.len() == 2 {
        let b0 = bytes[0] as int;
        let b1 = bytes[1] as int;
        seq![base64_digit(b0 / 4), base64_digit((b0 % 4) * 16 + b1 / 16), base64_digit((b1 % 16) * 4), '=']
    } else {
        let b0 = bytes[0] as int;
        let b1 = bytes[1] as int;
        let b2 = bytes[2] as int;
        seq![
            base64_digit(b0 / 4),
            base64_digit((b0 % 4) * 16 + b1 / 16),
            base64_digit((b1 % 16) * 4 + b2 / 64),
            base64_digit(b2 % 64),
        ] + base64_standard(bytes.subrange(3, bytes.len() as int))
    }
}

/// The Base64 text of `n` bytes has four characters per started group of
/// three bytes.
pub proof fn lemma_base64_length(bytes: Seq<u8>)
    ensures
        base64_standard(bytes).len() == 4 * ((bytes.len() + 2) / 3),
    decreases bytes.len(),
{
    if bytes.len() >= 3 {
        lemma_base64_length(bytes.subrange(3, bytes.len() as int));
    }
}

/// The six-bit value a character of the standard Base64 alphabet stands
/// for; -1 for any other character.
pub open spec fn base64_value(c: char) -> int {
    if 'A' <= c && c <= 'Z' {
        c as int - 'A' as int
    } else if 'a' <= c && c <= 'z' {
        c as int - 'a' as int + 26
    } else if '0' <= c && c <= '9' {
        c as int - '0' as int + 52
    } else if c == '+' {
        62
    } else if c == '/' {
        63
    } else {
        -1
    }
}

/// Each six-bit value has its own character, which reads back as that
/// value.
pub proof fn lemma_base64_digit_reads_back(v: int)
    requires
        0 <= v < 64,
    ensures
        base64_value(base64_digit(v)) == v,
        base64_digit(v) != '=',
{
}

proof fn lemma_group_bits(b0: int, b1: int, b2: int)
    requires
        0 <= b0 < 256,
        0 <= b1 < 256,
        0 <= b2 < 256,
    ensures
        0 <= b0 / 4 < 64,
        0 <= (b0 % 4) * 16 + b1 / 16 < 64,
        0 <= (b1 % 16) * 4 + b2 / 64 < 64,
        0 <= b2 % 64 < 64,
        (b0 / 4) * 262144 + ((b0 % 4) * 16 + b1 / 16) * 4096 + ((b1 % 16) * 4 + b2 / 64) * 64 + b2 % 64 == b0
            * 65536 + b1 * 256 + b2,
        (b0 / 4) * 4096 + ((b0 % 4) * 16 + b1 / 16) * 64 + (b1 % 16) * 4 == (b0 * 256 + b1) * 4,
        (b0 / 4) * 64 + (b0 % 4) * 16 == b0 * 16,
{
}

/// Base64 text reads back as its bytes: the four characters of each group
/// of three bytes, taken as six-bit values, make up the 24 bits of those
/// bytes; a last single byte fills the first twelve bits of its group,
/// followed by "=="; a last pair of bytes fills the first eighteen bits,
/// followed by "=". No other character is "=".
pub proof fn lemma_base64_reads_back(bytes: Seq<u8>)
    ensures
        ({
            let out = base64_standard(bytes);
            &&& forall|g: int|
                #![trigger out[4 * g]]
                0 <= g < bytes.len() / 3 ==> base64_value(out[4 * g]) * 262144 + base64_value(out[4 * g + 1]) * 4096
                    + base64_value(out[4 * g + 2]) * 64 + base64_value(out[4 * g + 3]) == bytes[3 * g] as int * 65536
                    + bytes[3 * g + 1] as int * 256 + bytes[3 * g + 2] as int
            &&& forall|i: int| 0 <= i < 4 * (bytes.len() / 3) ==> #[trigger] out[i] != '='
            &&& bytes.len() % 3 == 1 ==> {
                let l = out.len() as int;
                &&& base64_value(out[l - 4]) * 64 + base64_value(out[l - 3]) == bytes[bytes.len() - 1] as int * 16
                &&& base64_value(out[l - 4]) >= 0 && base64_value(out[l - 3]) >= 0
                &&& out[l - 2] == '=' && out[l - 1] == '='
            }
            &&& bytes.len() % 3 == 2 ==> {
                let l = out.len() as int;
                &&& base64_value(out[l - 4]) * 4096 + base64_value(out[l - 3]) * 64 + base64_value(out[l - 2]) == (
                bytes[bytes.len() - 2] as int * 256 + bytes[bytes.len() - 1] as int) * 4
                &&& base64_value(out[l - 4]) >= 0 && base64_value(out[l - 3]) >= 0 && base64_value(out[l - 2]) >= 0
                &&& out[l - 1] == '='
            }
        }),
    decreases bytes.len(),
{
    let out = base64_standard(bytes);
    lemma_base64_length(bytes);
    if bytes.len() == 1 {
        let b0 = bytes[0] as int;
        lemma_group_bits(b0, 0, 0);
        lemma_base64_digit_reads_back(b0 / 4);
        lemma_base64_digit_reads_back((b0 % 4) * 16);
    } else if bytes.len() == 2 {
        let b0 = bytes[0] as int;
        let b1 = bytes[1] as int;
        lemma_group_bits(b0, b1, 0);
        lemma_base64_digit_reads_back(b0 / 4);
        lemma_base64_digit_reads_back((b0 % 4) * 16 + b1 / 16);
        lemma_base64_digit_reads_back((b1 % 16) * 4);
    } else if bytes.len() >= 3 {
        let b0 = bytes[0] as int;
        let b1 = bytes[1] as int;
        let b2 = bytes[2] as int;
        let rest = bytes.subrange(3, bytes.len() as int);
        let tail = base64_standard(rest);
        lemma_base64_reads_back(rest);
        lemma_base64_length(rest);
        lemma_group_bits(b0, b1, b2);
        lemma_base64_digit_reads_back(b0 / 4);
        lemma_base64_digit_reads_back((b0 % 4) * 16 + b1 / 16);
        lemma_base64_digit_reads_back((b1 % 16) * 4 + b2 / 64);
        lemma_base64_digit_reads_back(b2 % 64);
        let head = seq![
            base64_digit(b0 / 4),
            base64_digit((b0 % 4) * 16 + b1 / 16),
            base64_digit((b1 % 16) * 4 + b2 / 64),
            base64_digit(b2 % 64),
        ];
        assert(out == head + tail);
        assert(bytes.len() / 3 == rest.len() / 3 + 1);
        assert(bytes.len() % 3 == rest.len() % 3);
        assert forall|i: int| 4 <= i < out.len() implies out[i] == #[trigger] tail[i - 4] by {}
        assert forall|i: int| 3 <= i < bytes.len() implies bytes[i] == #[trigger] rest[i - 3] by {}
        assert forall|g: int|
            #![trigger out[4 * g]]
            0 <= g < bytes.len() / 3 implies base64_value(out[4 * g]) * 262144 + base64_value(out[4 * g + 1]) * 4096
                + base64_value(out[4 * g + 2]) * 64 + base64_value(out[4 * g + 3]) == bytes[3 * g] as int * 65536
                + bytes[3 * g + 1] as int * 256 + bytes[3 * g + 2] as int by {
            if g > 0 {
                let h = g - 1;
                assert(out[4 * g] == tail[4 * h]);
                assert(out[4 * g + 1] == tail[4 * h + 1]);
                assert(out[4 * g + 2] == tail[4 * h + 2]);
                assert(out[4 * g + 3] == tail[4 * h + 3]);
                assert(bytes[3 * g] == rest[3 * h]);
                assert(bytes[3 * g + 1] == rest[3 * h + 1]);
                assert(bytes[3 * g + 2] == rest[3 * h + 2]);
            }
        }
        assert forall|i: int| 0 <= i < 4 * (bytes.len() / 3) implies #[trigger] out[i] != '=' by {
            if i >= 4 {
                assert(out[i] == tail[i - 4]);
            }
        }
        if bytes.len() % 3 != 0 {
            let l = out.len() as int;
            let lt = tail.len() as int;
            assert(l == lt + 4);
            assert(out[l - 4] == tail[lt - 4]);
            assert(out[l - 3] == tail[lt - 3]);
            assert(out[l - 2] == tail[lt - 2]);
            assert(out[l - 1] == tail[lt - 1]);
            assert(bytes[bytes.len() - 1] == rest[rest.len() - 1]);
            if bytes.len() % 3 == 2 {
                assert(bytes[bytes.len() - 2] == rest[rest.len() - 2]);
            }
        }
    }
}

/// Encodes bytes with the `base64` crate's `STANDARD` engine.
///
/// Trusted: `Engine::encode` on `general_purpose::STANDARD` returns the
/// standard padded Base64 text of its input (RFC 4648 alphabet, `=`
/// padding), as `base64_standard` defines it.
#[verifier::external_body]
fn encode_base64(bytes: &[u8]) -> (res: String)
    ensures
        res@ == base64_standard(bytes@),
{
    base64::Engine::encode(&base64::engine::general_purpose::STANDARD, bytes)
}

/// The prefix of the data URI under which cover art is handed to the
/// overlay.
pub open spec fn thumbnail_uri_prefix() -> Seq<char> {
    "data:image/jpeg;base64,"@
}

/// Whether cover art of the given size is read at all.
pub fn thumbnail_size_accepted(size: u64) -> (res: bool)
    ensures
        res == (0 < size && size < MAX_THUMBNAIL_BYTES),
{
    size > 0 && size < MAX_THUMBNAIL_BYTES
}

/// The data URI of cover art given its Base64 text.
pub fn thumbnail_data_uri(encoded: &str) -> (res: String)
    ensures
        res@ == thumbnail_uri_prefix() + encoded@,
{
    let mut uri = String::from_str("data:image/jpeg;base64,");
    uri.append(encoded);
    uri
}

/// The data URI of cover art given its bytes.
pub fn encode_thumbnail(bytes: &[u8]) -> (res: String)
    ensures
        res@ == thumbnail_uri_prefix() + base64_standard(bytes@),
{
    let encoded = encode_base64(bytes);
    thumbnail_data_uri(encoded.as_str())
}

/// The name under which a session is shown when its application id cannot
/// be read.
pub open spec fn default_source_app() -> Seq<char> {
    "Music Player"@
}

/// The value kept of a media session, given what could be read of it.
pub open spec fn media_session(
    source_app: Option<Seq<char>>,
    is_playing: bool,
    title: Seq<char>,
    artist: Seq<char>,
    album: Seq<char>,
    thumbnail: Option<Seq<u8>>,
) -> MediaSessionView {
    MediaSessionView {
        is_available: title.len() > 0 || artist.len() > 0,
        is_playing,
        title,
        artist,
        album,
        source_app: match source_app {
            Some(s) => s,
            None => default_source_app(),
        },
        thumbnail_base64: match thumbnail {
            Some(b) => Some(thumbnail_uri_prefix() + base64_standard(b)),
            None => None,
        },
    }
}

/// A media session is available exactly when its title or its artist is
/// non-empty; an unreadable application id shows as "Music Player"; the
/// texts read are kept as they are; cover art, where read, becomes a JPEG
/// data URI holding its Base64 text.
pub proof fn lemma_media_session_fields(
    source_app: Option<Seq<char>>,
    is_playing: bool,
    title: Seq<char>,
    artist: Seq<char>,
    album: Seq<char>,
    thumbnail: Option<Seq<u8>>,
)
    ensures
        ({
            let m = media_session(source_app, is_playing, title, artist, album, thumbnail);
            &&& m.is_available <==> (title.len() != 0 || artist.len() != 0)
            &&& m.is_playing == is_playing
            &&& m.title == title && m.artist == artist && m.album == album
            &&& source_app matches Some(a) ==> m.source_app == a
            &&& source_app is None ==> m.source_app == "Music Player"@
            &&& thumbnail is None <==> m.thumbnail_base64 is None
            &&& thumbnail matches Some(b) ==> m.thumbnail_base64 == Some(
                "data:image/jpeg;base64,"@ + base64_standard(b),
            )
        }),
{
}

impl MediaSessionInfo {
    /// Assembles what was read of a media session: the application id
    /// (`None` where unreadable), whether it is playing, title, artist and
    /// album (`None` where unreadable, taken as empty), and the cover art
    /// bytes where they were read. The session counts as available when it
    /// has a title or an artist.
    pub fn from_session(
        source_app: Option<String>,
        is_playing: bool,
        title: Option<String>,
        artist: Option<String>,
        album: Option<String>,
        thumbnail: Option<Vec<u8>>,
    ) -> (res: MediaSessionInfo)
        ensures
            res@ == media_session(
                opt_view(source_app),
                is_playing,
                view_or_empty(title),
                view_or_empty(artist),
                view_or_empty(album),
                match thumbnail {
                    Some(b) => Some(b@),
                    None => None,
                },
            ),
    {
        let source_app = match source_app {
            Some(s) => s,
            None => String::from_str("Music Player"),
        };
        let title = string_or_empty(title);
        let artist = string_or_empty(artist);
        let album = string_or_empty(album);
        let thumbnail_base64 = match thumbnail {
            Some(bytes) => Some(encode_thumbnail(bytes.as_slice())),
            None => None,
        };
        let is_available = !title.as_str().is_empty() || !artist.as_str().is_empty();
        MediaSessionInfo { is_available, is_playing, title, artist, album, source_app, thumbnail_base64 }
    }
}

/// Reader of the system media transport controls.
pub struct GsmtcMonitor;

impl GsmtcMonitor {
    /// A monitor; it holds no state of its own.
    pub fn new() -> (res: Self)
        ensures
            res == GsmtcMonitor,
    {
        GsmtcMonitor
    }
}

} // verus!
