//! The local media poller: of the players seen on one poll it takes the
//! first that plays, else the first; it passes on a state only when the
//! title or the playing flag changed, and it slows down after a run of
//! polls that found no player at all.

use vstd::prelude::*;
use crate::ffi::{DiscoveredDevice, MediaState};

verus! {

/// The number of empty polls counted at most.
pub const MAX_QUIET_POLLS: u32 = 15;

/// After this many empty polls each poll waits longer.
pub const SLOW_AFTER_QUIET_POLLS: u32 = 10;

/// The title compared between polls: empty when there is none.
pub open spec fn title_text(t: Option<String>) -> Seq<char> {
    match t {
        Some(s) => s@,
        None => Seq::empty(),
    }
}

/// The index of the first state that plays.
pub open spec fn first_playing_state(s: Seq<MediaState>) -> Option<int>
    decreases s.len(),
{
    if s.len() == 0 {
        None
    } else {
        match first_playing_state(s.drop_last()) {
            Some(i) => Some(i),
            None => if s.last().playing {
                Some(s.len() - 1)
            } else {
                None
            },
        }
    }
}

/// The state taken from one poll: the first that plays, else the first.
pub open spec fn best_candidate_spec(s: Seq<MediaState>) -> Option<MediaState> {
    match first_playing_state(s) {
        Some(i) => Some(s[i]),
        None => if s.len() == 0 {
            None
        } else {
            Some(s[0])
        },
    }
}

proof fn lemma_first_playing_state(s: Seq<MediaState>)
    ensures
        match first_playing_state(s) {
            Some(i) => 0 <= i < s.len() && s[i].playing && forall|j: int| 0 <= j < i ==> !(#[trigger] s[j]).playing,
            None => forall|j: int| 0 <= j < s.len() ==> !(#[trigger] s[j]).playing,
        },
    decreases s.len(),
{
    if s.len() > 0 {
        lemma_first_playing_state(s.drop_last());
        assert forall|j: int| 0 <= j < s.len() - 1 implies #[trigger] s[j] == s.drop_last()[j] by {}
    }
}

fn copy_state(m: &MediaState) -> (r: MediaState)
    ensures
        r == *m,
{
    MediaState {
        title: match &m.title {
            Some(t) => Some(t.clone()),
            None => None,
        },
        artist: match &m.artist {
            Some(a) => Some(a.clone()),
            None => None,
        },
        album: match &m.album {
            Some(a) => Some(a.clone()),
            None => None,
        },
        playing: m.playing,
    }
}

/// Of the players seen on one poll, in order: the first that plays, else
/// the first; none when no player was seen.
pub fn best_candidate(candidates: &Vec<MediaState>) -> (r: Option<MediaState>)
    ensures
        r == best_candidate_spec(candidates@),
{
    proof {
        lemma_first_playing_state(candidates@);
    }
    let mut i: usize = 0;
    while i < candidates.len()
        invariant
            0 <= i <= candidates@.len(),
            forall|j: int| 0 <= j < i ==> !(#[trigger] candidates@[j]).playing,
            match first_playing_state(candidates@) {
                Some(k) => 0 <= k < candidates@.len() && candidates@[k].playing && forall|j: int|
                    0 <= j < k ==> !(#[trigger] candidates@[j]).playing,
                None => forall|j: int| 0 <= j < candidates@.len() ==> !(#[trigger] candidates@[j]).playing,
            },
        decreases candidates@.len() - i,
    {
        if candidates[i].playing {
            let ghost k = first_playing_state(candidates@);
            assert(k == Some(i as int)) by {
                match k {
                    Some(kk) => {
                        if kk < i {
                            assert(!candidates@[kk].playing);
                        }
                        if kk > i {
                            assert(!candidates@[i as int].playing);
                        }
                    },
                    None => {
                        assert(!candidates@[i as int].playing);
                    },
                }
            }
            return Some(copy_state(&candidates[i]));
        }
        i = i + 1;
    }
    assert(first_playing_state(candidates@) is None) by {
        if let Some(k) = first_playing_state(candidates@) {
            assert(!candidates@[k].playing);
        }
    }
    if candidates.len() == 0 {
        None
    } else {
        Some(copy_state(&candidates[0]))
    }
}

/// What the poller remembers between polls.
pub struct MediaPoller {
    pub last_title: String,
    pub last_playing: bool,
    pub quiet_polls: u32,
}

/// Whether a polled state differs from what was last passed on.
pub open spec fn changed(p: MediaPoller, s: MediaState) -> bool {
    title_text(s.title) != p.last_title@ || s.playing != p.last_playing
}

impl MediaPoller {
    /// The count of empty polls never passes its cap.
    pub open spec fn wf(&self) -> bool {
        self.quiet_polls <= MAX_QUIET_POLLS
    }

    /// A poller that has passed nothing on: an empty title, not playing.
    pub fn new() -> (p: Self)
        ensures
            p.wf(),
            p.last_title@.len() == 0,
            !p.last_playing,
            p.quiet_polls == 0,
    {
        MediaPoller { last_title: String::new(), last_playing: false, quiet_polls: 0 }
    }

    /// Whether the next poll waits longer: after more than ten empty polls.
    pub fn slow_down(&self) -> (b: bool)
        ensures
            b == (SLOW_AFTER_QUIET_POLLS < self.quiet_polls && self.quiet_polls <= MAX_QUIET_POLLS),
    {
        SLOW_AFTER_QUIET_POLLS < self.quiet_polls && self.quiet_polls <= MAX_QUIET_POLLS
    }

    /// One poll's result. No player: one more empty poll is counted, up to
    /// the cap. A state whose title or playing flag changed is passed on and
    /// remembered, and the count starts again; an unchanged one is not.
    pub fn observe(&mut self, polled: Option<MediaState>) -> (r: Option<MediaState>)
        requires
            old(self).wf(),
        ensures
            final(self).wf(),
            match polled {
                None => {
                    &&& r is None
                    &&& final(self).last_title == old(self).last_title
                    &&& final(self).last_playing == old(self).last_playing
                    &&& final(self).quiet_polls == (if old(self).quiet_polls < MAX_QUIET_POLLS {
                        old(self).quiet_polls + 1
                    } else {
                        old(self).quiet_polls as int
                    })
                },
                Some(s) => if changed(*old(self), s) {
                    &&& r == Some(s)
                    &&& final(self).last_title@ == title_text(s.title)
                    &&& final(self).last_playing == s.playing
                    &&& final(self).quiet_polls == 0
                } else {
                    &&& r is None
                    &&& *final(self) == *old(self)
                },
            },
    {
        match polled {
            None => {
                if self.quiet_polls < MAX_QUIET_POLLS {
                    self.quiet_polls = self.quiet_polls + 1;
                }
                None
            },
            Some(s) => {
                let title = match &s.title {
                    Some(t) => t.clone(),
                    None => String::new(),
                };
                if title != self.last_title || s.playing != self.last_playing {
                    self.last_title = title;
                    self.last_playing = s.playing;
                    self.quiet_polls = 0;
                    Some(s)
                } else {
                    None
                }
            },
        }
    }
}

/// A state that was just passed on is not passed on again by the next
/// poll that sees it unchanged.
pub proof fn lemma_state_passed_on_once(before: MediaPoller, after: MediaPoller, s: MediaState)
    requires
        changed(before, s),
        after.last_title@ == title_text(s.title),
        after.last_playing == s.playing,
    ensures
        !changed(after, s),
{
}

/// The discovered device a trusted peer's update goes to: the first with
/// the peer's device id.
pub open spec fn device_for_peer(discovered: Seq<DiscoveredDevice>, id: Seq<char>) -> Option<DiscoveredDevice>
    decreases discovered.len(),
{
    if discovered.len() == 0 {
        None
    } else {
        match device_for_peer(discovered.drop_last(), id) {
            Some(d) => Some(d),
            None => if discovered.last().id@ == id {
                Some(discovered.last())
            } else {
                None
            },
        }
    }
}

/// The devices a changed local state is sent to, one per trusted peer in
/// order, for each peer with a device id that a discovered device has.
pub open spec fn broadcast_targets_spec(peers: Seq<Option<String>>, discovered: Seq<DiscoveredDevice>) -> Seq<
    DiscoveredDevice,
>
    decreases peers.len(),
{
    if peers.len() == 0 {
        Seq::empty()
    } else {
        let rest = broadcast_targets_spec(peers.drop_last(), discovered);
        match peers.last() {
            Some(id) => match device_for_peer(discovered, id@) {
                Some(d) => rest.push(d),
                None => rest,
            },
            None => rest,
        }
    }
}

fn copy_device(d: &DiscoveredDevice) -> (r: DiscoveredDevice)
    ensures
        r == *d,
{
    DiscoveredDevice {
        id: d.id.clone(),
        name: d.name.clone(),
        ip: d.ip.clone(),
        port: d.port,
        device_type: d.device_type.clone(),
    }
}

fn find_device(discovered: &Vec<DiscoveredDevice>, id: &String) -> (r: Option<DiscoveredDevice>)
    ensures
        r == device_for_peer(discovered@, id@),
{
    let mut i: usize = 0;
    while i < discovered.len()
        invariant
            0 <= i <= discovered@.len(),
            device_for_peer(discovered@.take(i as int), id@) is None,
        decreases discovered@.len() - i,
    {
        assert(discovered@.take(i + 1).drop_last() =~= discovered@.take(i as int));
        if discovered[i].id == *id {
            let r = copy_device(&discovered[i]);
            assert(device_for_peer(discovered@.take(i + 1), id@) == Some(r));
            proof {
                lemma_device_for_peer_prefix(discovered@, id@, i + 1);
            }
            return Some(r);
        }
        i = i + 1;
    }
    assert(discovered@.take(discovered@.len() as int) =~= discovered@);
    None
}

proof fn lemma_device_for_peer_prefix(s: Seq<DiscoveredDevice>, id: Seq<char>, n: int)
    requires
        0 <= n <= s.len(),
        device_for_peer(s.take(n), id) is Some,
    ensures
        device_for_peer(s, id) == device_for_peer(s.take(n), id),
    decreases s.len() - n,
{
    if n < s.len() {
        assert(s.take(n + 1).drop_last() =~= s.take(n));
        lemma_device_for_peer_prefix(s, id, n + 1);
    } else {
        assert(s.take(n) =~= s);
    }
}

/// The devices a changed local state is sent to.
pub fn broadcast_targets(peers: &Vec<Option<String>>, discovered: &Vec<DiscoveredDevice>) -> (r: Vec<
    DiscoveredDevice,
>)
    ensures
        r@ == broadcast_targets_spec(peers@, discovered@),
{
    let mut r: Vec<DiscoveredDevice> = Vec::new();
    let mut i: usize = 0;
    while i < peers.len()
        invariant
            0 <= i <= peers@.len(),
            r@ == broadcast_targets_spec(peers@.take(i as int), discovered@),
        decreases peers@.len() - i,
    {
        assert(peers@.take(i + 1).drop_last() =~= peers@.take(i as int));
        assert(peers@.take(i + 1).last() == peers@[i as int]);
        match &peers[i] {
            Some(id) => {
                match find_device(discovered, id) {
                    Some(d) => r.push(d),
                    None => {},
                }
            },
            None => {},
        }
        i = i + 1;
    }
    assert(peers@.take(peers@.len() as int) =~= peers@);
    r
}

} // verus!
