//! What the desktop media-player service publishes for the phone's media
//! session: the playback status and track metadata derived from an update,
//! skipping an update identical to the last one; which media players on
//! the session bus belong to other applications, and which of them a media
//! command goes to.

use vstd::prelude::*;
use crate::ffi::{MediaCommand, MediaState};
use crate::filesystem::{contains_chars, contains_text};
use crate::remote::{has_prefix, starts_with_chars};
use crate::state::opt_view;
use crate::text::chars_of;

verus! {

/// The phone's media session as last reported.
#[derive(Clone, Debug)]
pub struct MprisUpdate {
    pub title: Option<String>,
    pub artist: Option<String>,
    pub album: Option<String>,
    pub playing: bool,
}

/// The playback status published for an update.
#[derive(Clone, Copy, Debug, PartialEq, Eq, Structural)]
pub enum PlaybackState {
    Playing,
    Paused,
    Stopped,
}

/// The track metadata published for an update.
#[derive(Clone, Debug)]
pub struct TrackMetadata {
    pub title: Option<String>,
    pub artists: Vec<String>,
    pub album: Option<String>,
}

/// Two updates carry the same values.
pub open spec fn same_update(a: MprisUpdate, b: MprisUpdate) -> bool {
    &&& opt_view(a.title) == opt_view(b.title)
    &&& opt_view(a.artist) == opt_view(b.artist)
    &&& opt_view(a.album) == opt_view(b.album)
    &&& a.playing == b.playing
}

/// Whether the update names a title, an artist or an album.
pub open spec fn has_metadata_spec(u: MprisUpdate) -> bool {
    u.title is Some || u.artist is Some || u.album is Some
}

/// Playing when playing; paused when stopped with a track known; else
/// stopped.
pub open spec fn playback_state_spec(u: MprisUpdate) -> PlaybackState {
    if u.playing {
        PlaybackState::Playing
    } else if has_metadata_spec(u) {
        PlaybackState::Paused
    } else {
        PlaybackState::Stopped
    }
}

/// The metadata published: the title, the artist as the only artist, and
/// the album, each when known.
pub open spec fn metadata_matches(m: TrackMetadata, u: MprisUpdate) -> bool {
    &&& opt_view(m.title) == opt_view(u.title)
    &&& opt_view(m.album) == opt_view(u.album)
    &&& match u.artist {
        Some(a) => m.artists@.len() == 1 && m.artists@[0]@ == a@,
        None => m.artists@.len() == 0,
    }
}

fn same_opt_text(a: &Option<String>, b: &Option<String>) -> (r: bool)
    ensures
        r == (opt_view(*a) == opt_view(*b)),
{
    match (a, b) {
        (Some(x), Some(y)) => *x == *y,
        (None, None) => true,
        _ => false,
    }
}

fn clone_opt_text(a: &Option<String>) -> (r: Option<String>)
    ensures
        opt_view(r) == opt_view(*a),
{
    match a {
        Some(x) => Some(x.clone()),
        None => None,
    }
}

impl MprisUpdate {
    /// Whether `other` carries the same values.
    pub fn same_as(&self, other: &MprisUpdate) -> (r: bool)
        ensures
            r == same_update(*self, *other),
    {
        same_opt_text(&self.title, &other.title) && same_opt_text(&self.artist, &other.artist)
            && same_opt_text(&self.album, &other.album) && self.playing == other.playing
    }

    /// Whether a title, an artist or an album is known.
    pub fn has_metadata(&self) -> (b: bool)
        ensures
            b == has_metadata_spec(*self),
    {
        self.title.is_some() || self.artist.is_some() || self.album.is_some()
    }

    /// The playback status to publish.
    pub fn playback_state(&self) -> (s: PlaybackState)
        ensures
            s == playback_state_spec(*self),
    {
        if self.playing {
            PlaybackState::Playing
        } else if self.has_metadata() {
            PlaybackState::Paused
        } else {
            PlaybackState::Stopped
        }
    }

    /// The track metadata to publish.
    pub fn metadata(&self) -> (m: TrackMetadata)
        ensures
            metadata_matches(m, *self),
    {
        let mut artists: Vec<String> = Vec::new();
        if let Some(a) = &self.artist {
            artists.push(a.clone());
        }
        TrackMetadata {
            title: clone_opt_text(&self.title),
            artists,
            album: clone_opt_text(&self.album),
        }
    }
}

/// Publishes the phone's media session, skipping repeats.
pub struct MprisRelay {
    /// The last update taken.
    pub last: Option<MprisUpdate>,
}

/// Whether the relay would skip `u` after `last`.
pub open spec fn is_repeat(last: Option<MprisUpdate>, u: MprisUpdate) -> bool {
    match last {
        Some(l) => same_update(l, u),
        None => false,
    }
}

impl MprisRelay {
    /// A relay that has published nothing.
    pub fn new() -> (r: Self)
        ensures
            r.last is None,
    {
        MprisRelay { last: None }
    }

    /// Takes an update: `None` when it repeats the last one taken (nothing is
    /// published), else the status and metadata to publish; the update is
    /// remembered either way.
    pub fn offer(&mut self, update: MprisUpdate) -> (r: Option<(PlaybackState, TrackMetadata)>)
        ensures
            is_repeat(old(self).last, update) ==> r is None,
            !is_repeat(old(self).last, update) ==> (r matches Some(p) && p.0
                == playback_state_spec(update) && metadata_matches(p.1, update)),
            is_repeat(old(self).last, update) ==> final(self).last == old(self).last,
            !is_repeat(old(self).last, update) ==> final(self).last == Some(update),
    {
        let repeat = match &self.last {
            Some(l) => l.same_as(&update),
            None => false,
        };
        if repeat {
            return None;
        }
        let state = update.playback_state();
        let meta = update.metadata();
        self.last = Some(update);
        Some((state, meta))
    }
}

/// Offering the update that was just published again publishes nothing.
pub proof fn lemma_repeat_is_skipped(last: Option<MprisUpdate>, u: MprisUpdate)
    ensures
        ({
            let after = if is_repeat(last, u) {
                last
            } else {
                Some(u)
            };
            is_repeat(after, u)
        }),
{
}

/// What the system's now-playing information amounts to: nothing when it
/// names no track and is not playing, else the track and whether it plays.
pub open spec fn now_playing_spec(
    title: Option<String>,
    artist: Option<String>,
    album: Option<String>,
    playing: bool,
) -> Option<MediaState> {
    if title is None && artist is None && album is None && !playing {
        None
    } else {
        Some(MediaState { title, artist, album, playing })
    }
}

/// The media state reported for the system's now-playing information;
/// `playing` is whether its playback rate is above zero.
pub fn now_playing(
    title: Option<String>,
    artist: Option<String>,
    album: Option<String>,
    playing: bool,
) -> (r: Option<MediaState>)
    ensures
        r == now_playing_spec(title, artist, album, playing),
{
    if title.is_none() && artist.is_none() && album.is_none() && !playing {
        return None;
    }
    Some(MediaState { title, artist, album, playing })
}

/// The update handed to the media-player service for a reported media
/// state.
pub fn update_of_state(state: MediaState) -> (u: MprisUpdate)
    ensures
        u == (MprisUpdate { title: state.title, artist: state.artist, album: state.album, playing: state.playing }),
{
    MprisUpdate { title: state.title, artist: state.artist, album: state.album, playing: state.playing }
}

/// The bus-name prefix of media players.
pub open spec fn mpris_prefix() -> Seq<char> {
    "org.mpris.MediaPlayer2."@
}

/// A media player of another application: under the media-player prefix,
/// neither a proxy (`playerctld`, `kdeconnect`) nor this application's own
/// player.
pub open spec fn is_foreign_player_spec(name: Seq<char>) -> bool {
    &&& has_prefix(name, mpris_prefix())
    &&& !contains_text(name, "playerctld"@)
    &&& !contains_text(name, "kdeconnect"@)
    &&& name != "org.mpris.MediaPlayer2.connected"@
}

/// Whether the bus name is a media player of another application.
pub fn is_foreign_player(name: &str) -> (b: bool)
    ensures
        b == is_foreign_player_spec(name@),
{
    let cs = chars_of(name);
    let prefix = chars_of("org.mpris.MediaPlayer2.");
    let a = chars_of("playerctld");
    let k = chars_of("kdeconnect");
    let own = chars_of("org.mpris.MediaPlayer2.connected");
    starts_with_chars(cs.as_slice(), prefix.as_slice()) && !contains_chars(
        cs.as_slice(),
        a.as_slice(),
    ) && !contains_chars(cs.as_slice(), k.as_slice()) && !same_vec(&cs, &own)
}

fn same_vec(a: &Vec<char>, b: &Vec<char>) -> (r: bool)
    ensures
        r == (a@ == b@),
{
    if a.len() != b.len() {
        return false;
    }
    let mut i: usize = 0;
    while i < a.len()
        invariant
            0 <= i <= a@.len() == b@.len(),
            forall|k: int| 0 <= k < i ==> a@[k] == b@[k],
        decreases a@.len() - i,
    {
        if a[i] != b[i] {
            return false;
        }
        i = i + 1;
    }
    assert(a@ =~= b@);
    true
}

/// The names kept from a bus listing, in order.
pub open spec fn foreign_players(names: Seq<String>) -> Seq<Seq<char>>
    decreases names.len(),
{
    if names.len() == 0 {
        seq![]
    } else {
        let rest = foreign_players(names.drop_last());
        if is_foreign_player_spec(names.last()@) {
            rest.push(names.last()@)
        } else {
            rest
        }
    }
}

/// The media players of other applications among the bus names, in order.
pub fn foreign_player_names(names: &Vec<String>) -> (r: Vec<String>)
    ensures
        r@.len() == foreign_players(names@).len(),
        forall|k: int| 0 <= k < r@.len() ==> #[trigger] r@[k]@ == foreign_players(names@)[k],
{
    let mut r: Vec<String> = Vec::new();
    let mut i: usize = 0;
    while i < names.len()
        invariant
            0 <= i <= names@.len(),
            r@.len() == foreign_players(names@.take(i as int)).len(),
            forall|k: int| 0 <= k < r@.len() ==> #[trigger] r@[k]@ == foreign_players(
                names@.take(i as int),
            )[k],
        decreases names@.len() - i,
    {
        assert(names@.take(i + 1).drop_last() =~= names@.take(i as int));
        assert(names@.take(i + 1).last() == names@[i as int]);
        if is_foreign_player(names[i].as_str()) {
            r.push(names[i].clone());
        }
        i = i + 1;
    }
    assert(names@.take(names@.len() as int) =~= names@);
    r
}

/// How long a bus listing is trusted, in milliseconds.
pub const PLAYER_CACHE_TTL_MS: u64 = 5000;

/// The media players last listed, and when (on a monotonic clock, in
/// milliseconds).
pub struct PlayerNameCache {
    pub names: Vec<String>,
    pub listed_at: Option<u64>,
}

/// Whether the cached listing may be used at `now`: taken less than the
/// time-to-live ago, and not empty.
pub open spec fn cache_fresh(c: PlayerNameCache, now: u64) -> bool {
    match c.listed_at {
        Some(t) => now >= t && now - t < PLAYER_CACHE_TTL_MS && c.names@.len() > 0,
        None => false,
    }
}

impl PlayerNameCache {
    /// A cache that has listed nothing yet.
    pub fn new() -> (c: Self)
        ensures
            c.names@.len() == 0,
            c.listed_at is None,
    {
        PlayerNameCache { names: Vec::new(), listed_at: None }
    }

    /// The cached names when they are fresh at `now`; `None` when the bus
    /// must be listed again.
    pub fn cached(&self, now: u64) -> (r: Option<Vec<String>>)
        ensures
            cache_fresh(*self, now) ==> (r matches Some(v) && v@ == self.names@),
            !cache_fresh(*self, now) ==> r is None,
    {
        match self.listed_at {
            Some(t) => {
                if now >= t && now - t < PLAYER_CACHE_TTL_MS && self.names.len() > 0 {
                    Some(self.names.clone())
                } else {
                    None
                }
            },
            None => None,
        }
    }

    /// Records a fresh bus listing taken at `now`: the players of other
    /// applications are kept and returned.
    pub fn refresh(&mut self, all_names: &Vec<String>, now: u64) -> (r: Vec<String>)
        ensures
            r@.len() == foreign_players(all_names@).len(),
            forall|k: int| 0 <= k < r@.len() ==> #[trigger] r@[k]@ == foreign_players(all_names@)[k],
            final(self).names@ == r@,
            final(self).listed_at == Some(now),
    {
        let kept = foreign_player_names(all_names);
        self.names = kept.clone();
        self.listed_at = Some(now);
        kept
    }
}

/// The playback status a desktop media player reports, `Unknown` when it
/// could not be asked.
#[derive(Clone, Copy, Debug, PartialEq, Eq, Structural)]
pub enum PlayerStatus {
    Playing,
    Paused,
    Stopped,
    Unknown,
}

/// A desktop media player as found on the session bus.
#[derive(Clone, Debug)]
pub struct PlayerSeen {
    pub identity: String,
    pub status: PlayerStatus,
}

/// Whether the player is the one controlled last time.
pub open spec fn is_last_used(p: PlayerSeen, last: Option<Seq<char>>) -> bool {
    last matches Some(l) && p.identity@ == l
}

/// The first playing player, by index.
pub open spec fn first_playing(ps: Seq<PlayerSeen>) -> Option<int>
    decreases ps.len(),
{
    if ps.len() == 0 {
        None
    } else {
        match first_playing(ps.drop_last()) {
            Some(i) => Some(i),
            None => if ps.last().status == PlayerStatus::Playing {
                Some(ps.len() - 1)
            } else {
                None
            },
        }
    }
}

/// The last player that was the one controlled last time.
pub open spec fn last_used_index(ps: Seq<PlayerSeen>, last: Option<Seq<char>>) -> Option<int>
    decreases ps.len(),
{
    if ps.len() == 0 {
        None
    } else if is_last_used(ps.last(), last) {
        Some(ps.len() - 1)
    } else {
        last_used_index(ps.drop_last(), last)
    }
}

/// The first paused player that is not the one controlled last time.
pub open spec fn first_other_paused(ps: Seq<PlayerSeen>, last: Option<Seq<char>>) -> Option<int>
    decreases ps.len(),
{
    if ps.len() == 0 {
        None
    } else {
        match first_other_paused(ps.drop_last(), last) {
            Some(i) => Some(i),
            None => if ps.last().status == PlayerStatus::Paused && !is_last_used(ps.last(), last) {
                Some(ps.len() - 1)
            } else {
                None
            },
        }
    }
}

/// The first stopped (or unanswering) player that is not the one
/// controlled last time.
pub open spec fn first_other_idle(ps: Seq<PlayerSeen>, last: Option<Seq<char>>) -> Option<int>
    decreases ps.len(),
{
    if ps.len() == 0 {
        None
    } else {
        match first_other_idle(ps.drop_last(), last) {
            Some(i) => Some(i),
            None => if (ps.last().status == PlayerStatus::Stopped || ps.last().status
                == PlayerStatus::Unknown) && !is_last_used(ps.last(), last) {
                Some(ps.len() - 1)
            } else {
                None
            },
        }
    }
}

/// The player a media command goes to: the first playing one; else the one
/// controlled last time; else the first paused one; else the first other.
pub open spec fn chosen_player(ps: Seq<PlayerSeen>, last: Option<Seq<char>>) -> Option<int> {
    match first_playing(ps) {
        Some(i) => Some(i),
        None => match last_used_index(ps, last) {
            Some(i) => Some(i),
            None => match first_other_paused(ps, last) {
                Some(i) => Some(i),
                None => first_other_idle(ps, last),
            },
        },
    }
}

proof fn lemma_first_playing_prefix(ps: Seq<PlayerSeen>, n: int, m: int)
    requires
        0 <= n <= m <= ps.len(),
        first_playing(ps.take(n)) is Some,
    ensures
        first_playing(ps.take(m)) == first_playing(ps.take(n)),
    decreases m - n,
{
    if m > n {
        lemma_first_playing_prefix(ps, n, m - 1);
        assert(ps.take(m).drop_last() =~= ps.take(m - 1));
    }
}

/// Chooses the player a media command goes to (see `chosen_player`);
/// `last` is the identity of the player controlled last time.
pub fn choose_player(players: &Vec<PlayerSeen>, last: &Option<String>) -> (r: Option<usize>)
    ensures
        match chosen_player(players@, opt_view(*last)) {
            Some(i) => (r matches Some(j) && j == i) && 0 <= i < players@.len(),
            None => r is None,
        },
{
    let ghost ps = players@;
    let ghost lv = opt_view(*last);
    let mut preferred: Option<usize> = None;
    let mut paused: Option<usize> = None;
    let mut idle: Option<usize> = None;
    let mut i: usize = 0;
    assert(ps.take(0) =~= Seq::<PlayerSeen>::empty());
    while i < players.len()
        invariant
            0 <= i <= ps.len(),
            ps == players@,
            lv == opt_view(*last),
            first_playing(ps.take(i as int)) is None,
            match last_used_index(ps.take(i as int), lv) {
                Some(j) => (preferred matches Some(k) && k == j) && 0 <= j < i,
                None => preferred is None,
            },
            match first_other_paused(ps.take(i as int), lv) {
                Some(j) => (paused matches Some(k) && k == j) && 0 <= j < i,
                None => paused is None,
            },
            match first_other_idle(ps.take(i as int), lv) {
                Some(j) => (idle matches Some(k) && k == j) && 0 <= j < i,
                None => idle is None,
            },
        decreases ps.len() - i,
    {
        let ghost t = ps.take(i + 1);
        assert(t.drop_last() =~= ps.take(i as int));
        assert(t.last() == ps[i as int]);
        let p = &players[i];
        if p.status == PlayerStatus::Playing {
            proof {
                lemma_first_playing_prefix(ps, i + 1, ps.len() as int);
                assert(ps.take(ps.len() as int) =~= ps);
            }
            return Some(i);
        }
        let is_last = match last {
            Some(l) => p.identity == *l,
            None => false,
        };
        if is_last {
            preferred = Some(i);
        } else if p.status == PlayerStatus::Paused {
            if paused.is_none() {
                paused = Some(i);
            }
        } else if idle.is_none() {
            idle = Some(i);
        }
        i = i + 1;
    }
    assert(ps.take(ps.len() as int) =~= ps);
    if preferred.is_some() {
        return preferred;
    }
    if paused.is_some() {
        return paused;
    }
    idle
}

/// How a media command acts on the system volume, for the commands that
/// do: up or down by five percent.
#[derive(Clone, Copy, Debug, PartialEq, Eq, Structural)]
pub enum VolumeAction {
    Raise,
    Lower,
}

/// The volume action of a command; none for the commands that go to a
/// player.
pub fn volume_action(cmd: &MediaCommand) -> (r: Option<VolumeAction>)
    ensures
        r == match *cmd {
            MediaCommand::VolumeUp => Some(VolumeAction::Raise),
            MediaCommand::VolumeDown => Some(VolumeAction::Lower),
            _ => None::<VolumeAction>,
        },
{
    match cmd {
        MediaCommand::VolumeUp => Some(VolumeAction::Raise),
        MediaCommand::VolumeDown => Some(VolumeAction::Lower),
        _ => None,
    }
}


/// What the user is told when the system's media session refused a
/// command, by the error's code; `detail` is the error's own text.
pub open spec fn media_error_message_spec(code: i32, detail: Seq<char>) -> Seq<char> {
    if code == -2147024809i32 {
        "No media is currently playing"@
    } else if code == -2147023728i32 {
        "No media player found"@
    } else if code == -2147024891i32 {
        "No permission to control audio"@
    } else {
        "Media control failed ("@ + detail + ")"@
    }
}

/// The text shown when the system's media session refused a command.
pub fn media_error_message(code: i32, detail: &str) -> (s: String)
    ensures
        s@ == media_error_message_spec(code, detail@),
{
    if code == -2147024809i32 {
        String::from_str("No media is currently playing")
    } else if code == -2147023728i32 {
        String::from_str("No media player found")
    } else if code == -2147024891i32 {
        String::from_str("No permission to control audio")
    } else {
        let mut s = String::from_str("Media control failed (");
        s.append(detail);
        s.append(")");
        s
    }
}

} // verus!
