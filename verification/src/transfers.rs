//! The transfers under way as the event stream reports them: which are
//! outgoing and which incoming, the last progress of each, which one the
//! window shows and can cancel, what the window shows as a transfer starts,
//! progresses, completes or fails, what the user is told, and which broken
//! off files wait to be sent again. An incoming offer is refused, accepted
//! at once, or left for the user to answer.

use vstd::prelude::*;
use crate::events::{is_cancelled_error, is_cancelled_spec, offline_ip, should_retry, should_retry_spec, RetryQueue};
use crate::state::{
    add_file_transfer_request, add_notification, notification_added, opt_view, remove_file_transfer_request,
    AppState, FileTransferRequest,
};
use crate::strmap::StrMap;
use crate::text::{dec, decimal_string, push_decimal_wide};

verus! {

/// A transfer under way: its file and its last reported progress (bytes
/// done out of the size reported with them; both 0 before any report).
#[derive(Clone, Debug)]
pub struct ActiveTransfer {
    pub filename: String,
    pub bytes: u64,
    pub total: u64,
}

/// One transfer's share of a combined progress: the size recorded for it
/// and its last reported progress.
#[derive(Clone, Copy, Debug, PartialEq, Eq, Structural)]
pub struct TransferPart {
    pub size: u64,
    pub bytes: u64,
    pub total: u64,
}

/// What the window shows of the transfers.
#[derive(Clone, Debug)]
pub enum TransferPhase {
    Starting { filename: String },
    /// One transfer, with its progress.
    InProgress { filename: String, bytes: u64, total: u64 },
    /// Several transfers at once: a label and the share of each.
    Aggregate { label: String, parts: Vec<TransferPart> },
    Completed { filename: String },
    Failed { error: String },
    Cancelled { filename: String },
}

/// The transfers under way, by transfer id.
pub struct TransferTracker {
    pub outgoing: StrMap<ActiveTransfer>,
    pub incoming: StrMap<ActiveTransfer>,
    /// The size last reported for each transfer.
    pub sizes: StrMap<u64>,
    /// The local file of each outgoing transfer, to send again.
    pub paths: StrMap<String>,
    /// The outgoing transfer the window can cancel.
    pub active_outgoing: Option<String>,
    /// The incoming transfer the window can cancel.
    pub active_incoming: Option<String>,
}

/// The transfers in the order the window goes through them: outgoing ones
/// first, each side in its own order.
pub open spec fn transfer_chain(t: TransferTracker) -> Seq<(Seq<char>, ActiveTransfer)> {
    t.outgoing.pairs() + t.incoming.pairs()
}

/// The id of the first entry.
pub open spec fn first_id(s: Seq<(Seq<char>, ActiveTransfer)>) -> Option<Seq<char>> {
    if s.len() > 0 {
        Some(s[0].0)
    } else {
        None
    }
}

/// The index of the first entry with the id.
pub open spec fn index_of_id(s: Seq<(Seq<char>, ActiveTransfer)>, id: Seq<char>) -> Option<int>
    decreases s.len(),
{
    if s.len() == 0 {
        None
    } else {
        match index_of_id(s.drop_last(), id) {
            Some(i) => Some(i),
            None => if s.last().0 == id {
                Some(s.len() - 1)
            } else {
                None
            },
        }
    }
}

/// The label of several transfers at once: the first one's file, and the
/// place of the reporting transfer (the first when it is not under way)
/// among all.
pub open spec fn aggregate_label(chain: Seq<(Seq<char>, ActiveTransfer)>, id: Seq<char>) -> Seq<char> {
    let pos = match index_of_id(chain, id) {
        Some(i) => i,
        None => 0,
    };
    chain[0].1.filename@ + "  (file "@ + dec((pos + 1) as nat) + "/"@ + dec(chain.len()) + ")"@
}

/// The shares of the transfers that have a recorded size, in order.
pub open spec fn chain_parts(chain: Seq<(Seq<char>, ActiveTransfer)>, sizes: Map<Seq<char>, u64>) -> Seq<TransferPart>
    decreases chain.len(),
{
    if chain.len() == 0 {
        Seq::empty()
    } else {
        let rest = chain_parts(chain.drop_last(), sizes);
        if sizes.contains_key(chain.last().0) {
            rest.push(
                TransferPart { size: sizes[chain.last().0], bytes: chain.last().1.bytes, total: chain.last().1.total },
            )
        } else {
            rest
        }
    }
}

/// What a progress report shows: several transfers combined, the one
/// transfer with the reported progress, or nothing when none is under way.
pub open spec fn progress_shown(
    r: Option<TransferPhase>,
    chain: Seq<(Seq<char>, ActiveTransfer)>,
    sizes: Map<Seq<char>, u64>,
    id: Seq<char>,
    bytes: u64,
    total: u64,
) -> bool {
    if chain.len() > 1 {
        r matches Some(TransferPhase::Aggregate { label, parts }) && label@ == aggregate_label(chain, id)
            && parts@ == chain_parts(chain, sizes)
    } else if chain.len() == 1 {
        r matches Some(TransferPhase::InProgress { filename, bytes: b, total: t }) && filename@
            == chain[0].1.filename@ && b == bytes && t == total
    } else {
        r is None
    }
}

/// The next transfer shown while others remain after one ended: the first
/// outgoing one, else the first incoming one.
pub open spec fn shows_next(phase: TransferPhase, chain: Seq<(Seq<char>, ActiveTransfer)>) -> bool {
    phase matches TransferPhase::InProgress { filename, bytes, total } && filename@ == chain[0].1.filename@
        && bytes == chain[0].1.bytes && total == chain[0].1.total
}

/// The cancellable transfers after one ended while others remain: the side
/// of the next shown transfer points at it; when the ended transfer was
/// under way the other side points at its first transfer, else it is kept.
pub open spec fn actives_after_end(
    after: TransferTracker,
    before_out: Option<String>,
    before_in: Option<String>,
    was_under_way: bool,
) -> bool {
    if after.outgoing.pairs().len() > 0 {
        &&& opt_view(after.active_outgoing) == first_id(after.outgoing.pairs())
        &&& opt_view(after.active_incoming) == (if was_under_way {
            first_id(after.incoming.pairs())
        } else {
            opt_view(before_in)
        })
    } else {
        &&& opt_view(after.active_incoming) == first_id(after.incoming.pairs())
        &&& opt_view(after.active_outgoing) == (if was_under_way {
            None
        } else {
            opt_view(before_out)
        })
    }
}

/// The queue after a file was queued under the offline address.
pub open spec fn queued_offline(before: Map<Seq<char>, Vec<String>>, after: Map<Seq<char>, Vec<String>>, path: String) -> bool {
    &&& after.dom() == before.dom().insert(offline_ip())
    &&& after[offline_ip()]@ == (if before.contains_key(offline_ip()) {
        before[offline_ip()]@
    } else {
        seq![]
    }).push(path)
    &&& forall|k: Seq<char>| #[trigger] before.contains_key(k) && k != offline_ip() ==> after[k] == before[k]
}

fn copy_transfer(t: &ActiveTransfer) -> (r: ActiveTransfer)
    ensures
        r == *t,
{
    ActiveTransfer { filename: t.filename.clone(), bytes: t.bytes, total: t.total }
}

fn first_key(m: &StrMap<ActiveTransfer>) -> (r: Option<String>)
    ensures
        opt_view(r) == first_id(m.pairs()),
{
    if m.len() > 0 {
        Some(m.key_at(0).clone())
    } else {
        None
    }
}

impl TransferTracker {
    /// Every store has distinct keys.
    pub open spec fn wf(&self) -> bool {
        &&& self.outgoing.wf()
        &&& self.incoming.wf()
        &&& self.sizes.wf()
        &&& self.paths.wf()
    }

    /// No transfer under way.
    pub fn new() -> (t: Self)
        ensures
            t.wf(),
            t.outgoing@ == Map::<Seq<char>, ActiveTransfer>::empty(),
            t.incoming@ == Map::<Seq<char>, ActiveTransfer>::empty(),
            t.sizes@ == Map::<Seq<char>, u64>::empty(),
            t.paths@ == Map::<Seq<char>, String>::empty(),
            t.active_outgoing is None,
            t.active_incoming is None,
    {
        TransferTracker {
            outgoing: StrMap::new(),
            incoming: StrMap::new(),
            sizes: StrMap::new(),
            paths: StrMap::new(),
            active_outgoing: None,
            active_incoming: None,
        }
    }

    /// An outgoing transfer of the local file `path` got the id `id`.
    pub fn record_path(&mut self, id: String, path: String)
        requires
            old(self).wf(),
        ensures
            final(self).wf(),
            final(self).paths@ == old(self).paths@.insert(id@, path),
            *final(self) == (TransferTracker { paths: final(self).paths, ..*old(self) }),
    {
        self.paths.insert(id, path);
    }

    /// A transfer starts: it is under way with no progress yet, its size is
    /// recorded, it becomes the cancellable one of its side, and the window
    /// shows it starting. The user is told of an incoming one.
    pub fn on_transfer_starting(
        &mut self,
        state: &mut AppState,
        id: String,
        filename: String,
        incoming: bool,
        total_size: u64,
        now: u64,
    ) -> (phase: TransferPhase)
        requires
            old(self).wf(),
            old(state).wf(),
            old(state).notification_counter < u64::MAX,
        ensures
            final(self).wf(),
            final(state).wf(),
            final(self).sizes@ == old(self).sizes@.insert(id@, total_size),
            final(self).paths == old(self).paths,
            phase matches TransferPhase::Starting { filename: f } && f == filename,
            incoming ==> {
                &&& final(self).incoming@ == old(self).incoming@.insert(
                    id@,
                    ActiveTransfer { filename, bytes: 0, total: 0 },
                )
                &&& final(self).outgoing == old(self).outgoing
                &&& opt_view(final(self).active_incoming) == Some(id@)
                &&& final(self).active_outgoing == old(self).active_outgoing
                &&& notification_added(
                    *old(state),
                    *final(state),
                    "Transfer Starting"@,
                    "Receiving "@ + filename@,
                    ""@,
                    now,
                )
            },
            !incoming ==> {
                &&& final(self).outgoing@ == old(self).outgoing@.insert(
                    id@,
                    ActiveTransfer { filename, bytes: 0, total: 0 },
                )
                &&& final(self).incoming == old(self).incoming
                &&& opt_view(final(self).active_outgoing) == Some(id@)
                &&& final(self).active_incoming == old(self).active_incoming
                &&& *final(state) == *old(state)
            },
            *final(state) == (AppState {
                notifications: final(state).notifications,
                notification_counter: final(state).notification_counter,
                ..*old(state)
            }),
    {
        self.sizes.insert(id.clone(), total_size);
        let t = ActiveTransfer { filename: filename.clone(), bytes: 0, total: 0 };
        if incoming {
            self.incoming.insert(id.clone(), t);
            self.active_incoming = Some(id);
            let mut msg = String::from_str("Receiving ");
            msg.append(filename.as_str());
            add_notification(state, "Transfer Starting", msg.as_str(), "", now);
        } else {
            self.outgoing.insert(id.clone(), t);
            self.active_outgoing = Some(id);
        }
        TransferPhase::Starting { filename }
    }

    fn shares(&self, a: &StrMap<ActiveTransfer>, b: &StrMap<ActiveTransfer>) -> (r: Vec<TransferPart>)
        requires
            self.sizes.wf(),
        ensures
            r@ == chain_parts(a.pairs() + b.pairs(), self.sizes@),
    {
        let ghost chain = a.pairs() + b.pairs();
        let mut r: Vec<TransferPart> = Vec::new();
        let mut i: usize = 0;
        while i < a.len()
            invariant
                0 <= i <= a.pairs().len(),
                self.sizes.wf(),
                chain == a.pairs() + b.pairs(),
                r@ == chain_parts(chain.take(i as int), self.sizes@),
            decreases a.pairs().len() - i,
        {
            assert(chain.take(i + 1).drop_last() =~= chain.take(i as int));
            assert(chain.take(i + 1).last() == a.pairs()[i as int]);
            let k = a.key_at(i);
            let v = a.value_at(i);
            match self.sizes.get(k.as_str()) {
                Some(size) => r.push(TransferPart { size: *size, bytes: v.bytes, total: v.total }),
                None => {},
            }
            i = i + 1;
        }
        let mut j: usize = 0;
        while j < b.len()
            invariant
                0 <= j <= b.pairs().len(),
                self.sizes.wf(),
                chain == a.pairs() + b.pairs(),
                r@ == chain_parts(chain.take(a.pairs().len() + j), self.sizes@),
            decreases b.pairs().len() - j,
        {
            let ghost n: int = a.pairs().len() + j;
            assert(chain.take(n + 1).drop_last() =~= chain.take(n));
            assert(chain.take(n + 1).last() == b.pairs()[j as int]);
            let k = b.key_at(j);
            let v = b.value_at(j);
            match self.sizes.get(k.as_str()) {
                Some(size) => r.push(TransferPart { size: *size, bytes: v.bytes, total: v.total }),
                None => {},
            }
            j = j + 1;
        }
        assert(chain.take(chain.len() as int) =~= chain);
        r
    }

    fn position_of(a: &StrMap<ActiveTransfer>, b: &StrMap<ActiveTransfer>, id: &str) -> (r: Option<u128>)
        ensures
            match index_of_id(a.pairs() + b.pairs(), id@) {
                Some(i) => r matches Some(p) && p == i && i < a.pairs().len() + b.pairs().len(),
                None => r is None,
            },
    {
        let ghost chain = a.pairs() + b.pairs();
        let key = String::from_str(id);
        let mut i: usize = 0;
        while i < a.len()
            invariant
                0 <= i <= a.pairs().len(),
                chain == a.pairs() + b.pairs(),
                key@ == id@,
                index_of_id(chain.take(i as int), id@) is None,
            decreases a.pairs().len() - i,
        {
            assert(chain.take(i + 1).drop_last() =~= chain.take(i as int));
            assert(chain.take(i + 1).last() == a.pairs()[i as int]);
            if *a.key_at(i) == key {
                proof {
                    lemma_index_prefix(chain, id@, i + 1);
                }
                return Some(i as u128);
            }
            i = i + 1;
        }
        let mut j: usize = 0;
        while j < b.len()
            invariant
                0 <= j <= b.pairs().len(),
                i == a.pairs().len(),
                chain == a.pairs() + b.pairs(),
                key@ == id@,
                index_of_id(chain.take(a.pairs().len() + j), id@) is None,
            decreases b.pairs().len() - j,
        {
            let ghost n: int = a.pairs().len() + j;
            assert(chain.take(n + 1).drop_last() =~= chain.take(n));
            assert(chain.take(n + 1).last() == b.pairs()[j as int]);
            if *b.key_at(j) == key {
                proof {
                    lemma_index_prefix(chain, id@, n + 1);
                }
                return Some(i as u128 + j as u128);
            }
            j = j + 1;
        }
        assert(chain.take(chain.len() as int) =~= chain);
        None
    }

    /// A transfer reported progress: its size is recorded; when it is under
    /// way its progress is kept and it becomes the cancellable one of its
    /// side. The window then shows the transfers combined when several are
    /// under way, the one transfer with this progress when one is, and
    /// nothing new when none is.
    pub fn on_transfer_progress(&mut self, id: &str, bytes: u64, total: u64) -> (r: Option<TransferPhase>)
        requires
            old(self).wf(),
        ensures
            final(self).wf(),
            final(self).sizes@ == old(self).sizes@.insert(id@, total),
            final(self).paths == old(self).paths,
            if old(self).outgoing@.contains_key(id@) {
                &&& final(self).outgoing@ == old(self).outgoing@.insert(
                    id@,
                    ActiveTransfer { filename: old(self).outgoing@[id@].filename, bytes, total },
                )
                &&& final(self).incoming == old(self).incoming
                &&& opt_view(final(self).active_outgoing) == Some(id@)
                &&& final(self).active_incoming == old(self).active_incoming
            } else if old(self).incoming@.contains_key(id@) {
                &&& final(self).incoming@ == old(self).incoming@.insert(
                    id@,
                    ActiveTransfer { filename: old(self).incoming@[id@].filename, bytes, total },
                )
                &&& final(self).outgoing == old(self).outgoing
                &&& opt_view(final(self).active_incoming) == Some(id@)
                &&& final(self).active_outgoing == old(self).active_outgoing
            } else {
                &&& final(self).outgoing == old(self).outgoing
                &&& final(self).incoming == old(self).incoming
                &&& final(self).active_outgoing == old(self).active_outgoing
                &&& final(self).active_incoming == old(self).active_incoming
            },
            progress_shown(r, transfer_chain(*final(self)), final(self).sizes@, id@, bytes, total),
    {
        self.sizes.insert(String::from_str(id), total);
        let in_out = match self.outgoing.get(id) {
            Some(t) => Some(t.filename.clone()),
            None => None,
        };
        match in_out {
            Some(f) => {
                self.outgoing.insert(String::from_str(id), ActiveTransfer { filename: f, bytes, total });
                self.active_outgoing = Some(String::from_str(id));
            },
            None => {
                let in_in = match self.incoming.get(id) {
                    Some(t) => Some(t.filename.clone()),
                    None => None,
                };
                match in_in {
                    Some(f) => {
                        self.incoming.insert(String::from_str(id), ActiveTransfer { filename: f, bytes, total });
                        self.active_incoming = Some(String::from_str(id));
                    },
                    None => {},
                }
            },
        }
        let ghost chain = transfer_chain(*self);
        let n_out = self.outgoing.len();
        let n_in = self.incoming.len();
        if n_out >= 2 || n_in >= 2 || (n_out == 1 && n_in == 1) {
            let first = if n_out > 0 {
                self.outgoing.value_at(0).filename.clone()
            } else {
                self.incoming.value_at(0).filename.clone()
            };
            assert(first@ == chain[0].1.filename@);
            let pos = match Self::position_of(&self.outgoing, &self.incoming, id) {
                Some(p) => p,
                None => 0,
            };
            let mut label = first;
            label.append("  (file ");
            push_decimal_wide(&mut label, pos + 1);
            label.append("/");
            push_decimal_wide(&mut label, n_out as u128 + n_in as u128);
            label.append(")");
            let parts = self.shares(&self.outgoing, &self.incoming);
            Some(TransferPhase::Aggregate { label, parts })
        } else if n_out == 1 || n_in == 1 {
            let f = if n_out == 1 {
                self.outgoing.value_at(0).filename.clone()
            } else {
                self.incoming.value_at(0).filename.clone()
            };
            Some(TransferPhase::InProgress { filename: f, bytes, total })
        } else {
            None
        }
    }

    /// After a transfer ended: when it was under way, each side's
    /// cancellable transfer becomes its first one; when others remain, the
    /// next shown one becomes cancellable and is returned.
    fn after_end(&mut self, was_under_way: bool) -> (next: Option<ActiveTransfer>)
        requires
            old(self).wf(),
        ensures
            final(self).wf(),
            final(self).outgoing == old(self).outgoing,
            final(self).incoming == old(self).incoming,
            final(self).sizes == old(self).sizes,
            final(self).paths == old(self).paths,
            match next {
                Some(t) => {
                    &&& transfer_chain(*final(self)).len() > 0
                    &&& t == transfer_chain(*final(self))[0].1
                    &&& actives_after_end(
                        *final(self),
                        old(self).active_outgoing,
                        old(self).active_incoming,
                        was_under_way,
                    )
                },
                None => {
                    &&& transfer_chain(*final(self)).len() == 0
                    &&& final(self).active_outgoing is None
                    &&& final(self).active_incoming is None
                },
            },
    {
        if was_under_way {
            self.active_outgoing = first_key(&self.outgoing);
            self.active_incoming = first_key(&self.incoming);
        }
        if self.outgoing.len() > 0 {
            self.active_outgoing = Some(self.outgoing.key_at(0).clone());
            Some(copy_transfer(self.outgoing.value_at(0)))
        } else if self.incoming.len() > 0 {
            self.active_incoming = Some(self.incoming.key_at(0).clone());
            Some(copy_transfer(self.incoming.value_at(0)))
        } else {
            self.active_outgoing = None;
            self.active_incoming = None;
            None
        }
    }

    /// A transfer completed: it is no longer under way. While others remain
    /// the next one is shown and the user is told the file finished;
    /// otherwise the window shows the completion, nothing is cancellable,
    /// and the user is told the file was received (an incoming one) or
    /// finished.
    pub fn on_transfer_completed(&mut self, state: &mut AppState, id: &str, filename: &str, now: u64) -> (phase:
        TransferPhase)
        requires
            old(self).wf(),
            old(state).wf(),
            old(state).notification_counter < u64::MAX,
        ensures
            final(self).wf(),
            final(state).wf(),
            final(self).sizes@ == old(self).sizes@.remove(id@),
            final(self).outgoing@ == old(self).outgoing@.remove(id@),
            final(self).incoming@ == old(self).incoming@.remove(id@),
            final(self).paths == old(self).paths,
            if transfer_chain(*final(self)).len() > 0 {
                &&& shows_next(phase, transfer_chain(*final(self)))
                &&& actives_after_end(
                    *final(self),
                    old(self).active_outgoing,
                    old(self).active_incoming,
                    old(self).outgoing@.contains_key(id@) || old(self).incoming@.contains_key(id@),
                )
                &&& notification_added(
                    *old(state),
                    *final(state),
                    "Transfer Complete"@,
                    filename@ + " finished"@,
                    ""@,
                    now,
                )
            } else {
                &&& phase matches TransferPhase::Completed { filename: f } && f@ == filename@
                &&& final(self).active_outgoing is None
                &&& final(self).active_incoming is None
                &&& notification_added(
                    *old(state),
                    *final(state),
                    "Transfer Complete"@,
                    (if old(self).incoming@.contains_key(id@) {
                        filename@ + " received. Click to open."@
                    } else {
                        filename@ + " finished"@
                    }),
                    ""@,
                    now,
                )
            },
            *final(state) == (AppState {
                notifications: final(state).notifications,
                notification_counter: final(state).notification_counter,
                ..*old(state)
            }),
    {
        self.sizes.remove(id);
        let was_out = self.outgoing.remove(id).is_some();
        let was_in = self.incoming.remove(id).is_some();
        match self.after_end(was_out || was_in) {
            Some(next) => {
                let mut msg = String::from_str(filename);
                msg.append(" finished");
                add_notification(state, "Transfer Complete", msg.as_str(), "", now);
                TransferPhase::InProgress { filename: next.filename, bytes: next.bytes, total: next.total }
            },
            None => {
                let mut msg = String::from_str(filename);
                if was_in {
                    msg.append(" received. Click to open.");
                } else {
                    msg.append(" finished");
                }
                add_notification(state, "Transfer Complete", msg.as_str(), "", now);
                TransferPhase::Completed { filename: String::from_str(filename) }
            },
        }
    }

    /// A transfer failed: it is no longer under way and its offer no longer
    /// waits. An outgoing one whose connection broke (not a cancellation) is
    /// queued to be sent again when its local file is known. While others
    /// remain the next one is shown; otherwise the window shows the failure
    /// (or the cancellation) and nothing is cancellable. The user is told of
    /// a failure, never of a cancellation.
    pub fn on_transfer_failed(
        &mut self,
        state: &mut AppState,
        retry: &mut RetryQueue,
        id: &str,
        error: &str,
        now: u64,
    ) -> (phase: TransferPhase)
        requires
            old(self).wf(),
            old(state).wf(),
            old(state).notification_counter < u64::MAX,
            old(retry).by_ip.wf(),
        ensures
            final(self).wf(),
            final(state).wf(),
            final(retry).by_ip.wf(),
            final(self).sizes@ == old(self).sizes@.remove(id@),
            final(self).outgoing@ == old(self).outgoing@.remove(id@),
            final(self).incoming@ == old(self).incoming@.remove(id@),
            final(state).file_transfer_requests@ == old(state).file_transfer_requests@.remove(id@),
            should_retry_spec(old(self).outgoing@.contains_key(id@), error@) ==> {
                &&& final(self).paths@ == old(self).paths@.remove(id@)
                &&& if old(self).paths@.contains_key(id@) {
                    queued_offline(old(retry).by_ip@, final(retry).by_ip@, old(self).paths@[id@])
                } else {
                    final(retry).by_ip@ == old(retry).by_ip@
                }
            },
            !should_retry_spec(old(self).outgoing@.contains_key(id@), error@) ==> {
                &&& final(self).paths == old(self).paths
                &&& final(retry).by_ip@ == old(retry).by_ip@
            },
            if transfer_chain(*final(self)).len() > 0 {
                &&& shows_next(phase, transfer_chain(*final(self)))
                &&& actives_after_end(
                    *final(self),
                    old(self).active_outgoing,
                    old(self).active_incoming,
                    old(self).outgoing@.contains_key(id@) || old(self).incoming@.contains_key(id@),
                )
            } else {
                &&& final(self).active_outgoing is None
                &&& final(self).active_incoming is None
                &&& if is_cancelled_spec(error@) {
                    phase matches TransferPhase::Cancelled { filename: f } && f@ == "File transfer"@
                } else {
                    phase matches TransferPhase::Failed { error: e } && e@ == error@
                }
            },
            if is_cancelled_spec(error@) {
                &&& final(state).notifications == old(state).notifications
                &&& final(state).notification_counter == old(state).notification_counter
            } else {
                notification_added(*old(state), *final(state), "Transfer Failed"@, error@, ""@, now)
            },
            *final(state) == (AppState {
                file_transfer_requests: final(state).file_transfer_requests,
                notifications: final(state).notifications,
                notification_counter: final(state).notification_counter,
                ..*old(state)
            }),
    {
        self.sizes.remove(id);
        remove_file_transfer_request(state, id);
        let cancelled = is_cancelled_error(error);
        let was_out = self.outgoing.remove(id).is_some();
        let was_in = self.incoming.remove(id).is_some();
        if should_retry(was_out, error) {
            match self.paths.remove(id) {
                Some(p) => retry.queue(p),
                None => {},
            }
        }
        let next = self.after_end(was_out || was_in);
        if !cancelled {
            add_notification(state, "Transfer Failed", error, "", now);
        }
        match next {
            Some(t) => TransferPhase::InProgress { filename: t.filename, bytes: t.bytes, total: t.total },
            None => if cancelled {
                TransferPhase::Cancelled { filename: String::from_str("File transfer") }
            } else {
                TransferPhase::Failed { error: String::from_str(error) }
            },
        }
    }
}

/// A transfer that started and then ended (completed or failed) is no
/// longer under way, and the transfers on its side are those that were
/// under way before it started, other than it.
pub proof fn lemma_ended_transfer_not_under_way(
    before: Map<Seq<char>, ActiveTransfer>,
    id: Seq<char>,
    started: ActiveTransfer,
)
    ensures
        !before.insert(id, started).remove(id).contains_key(id),
        before.insert(id, started).remove(id) == before.remove(id),
{
    assert(before.insert(id, started).remove(id) =~= before.remove(id));
}

proof fn lemma_index_prefix(s: Seq<(Seq<char>, ActiveTransfer)>, id: Seq<char>, n: int)
    requires
        0 <= n <= s.len(),
        index_of_id(s.take(n), id) is Some,
    ensures
        index_of_id(s, id) == index_of_id(s.take(n), id),
    decreases s.len() - n,
{
    if n < s.len() {
        assert(s.take(n + 1).drop_last() =~= s.take(n));
        lemma_index_prefix(s, id, n + 1);
    } else {
        assert(s.take(n) =~= s);
    }
}

/// A byte count in mebibytes, rounded to the nearest whole one (a half
/// rounds to the even one).
pub open spec fn whole_mib(bytes: nat) -> nat {
    let q = bytes / 1048576;
    let r = bytes % 1048576;
    if 2 * r > 1048576 || (2 * r == 1048576 && q % 2 == 1) {
        q + 1
    } else {
        q
    }
}

fn whole_mib_of(bytes: u64) -> (m: u64)
    ensures
        m == whole_mib(bytes as nat),
{
    let q = bytes / 1048576;
    let r = bytes % 1048576;
    if 2 * r > 1048576 || (2 * r == 1048576 && q % 2 == 1) {
        q + 1
    } else {
        q
    }
}

/// Why an offer is refused for want of room: the size needed and the room
/// left, in whole mebibytes, and the folder.
pub open spec fn disk_space_message(size: u64, available: u64, dir: Seq<char>) -> Seq<char> {
    "Not enough disk space. Need "@ + dec(whole_mib(size as nat)) + " MB but only "@ + dec(
        whole_mib(available as nat),
    ) + " MB available in "@ + dir
}

/// Whether the download folder has room for an offered file of `size`
/// bytes, given the room left in it (`None` when it could not be learnt,
/// which lets the offer through): a folder with less room than the file
/// refuses it, and says why.
pub fn check_disk_space(size: u64, available: Option<u64>, download_dir: &str) -> (r: Result<(), String>)
    ensures
        match available {
            Some(a) => if a < size {
                r matches Err(m) && m@ == disk_space_message(size, a, download_dir@)
            } else {
                r is Ok
            },
            None => r is Ok,
        },
{
    match available {
        Some(a) => {
            if a < size {
                let mut m = String::from_str("Not enough disk space. Need ");
                let n = decimal_string(whole_mib_of(size));
                m.append(n.as_str());
                m.append(" MB but only ");
                let v = decimal_string(whole_mib_of(a));
                m.append(v.as_str());
                m.append(" MB available in ");
                m.append(download_dir);
                Err(m)
            } else {
                Ok(())
            }
        },
        None => Ok(()),
    }
}

/// What becomes of an incoming file offer.
#[derive(Clone, Copy, Debug, PartialEq, Eq, Structural)]
pub enum OfferOutcome {
    /// Refused for want of disk space.
    Refused,
    /// Accepted at once: its sender's files are accepted automatically.
    Accepted,
    /// Left waiting for the user's answer.
    Waiting,
}

/// The text telling of an offer: who wants to send which file, and its
/// size in bytes.
pub open spec fn offer_text(offer: FileTransferRequest) -> Seq<char> {
    offer.from_device@ + " wants to send "@ + offer.filename@ + " ("@ + dec(offer.size as nat) + " bytes)"@
}

/// A device offers a file. When the disk lacks room (`disk_error` holds
/// the reason, as `check_disk_space` gives it) the offer is refused and the user told why; when the
/// sender's files are accepted automatically it is accepted; otherwise it
/// waits for the user, who is told of it.
pub fn on_transfer_offer(
    state: &mut AppState,
    offer: FileTransferRequest,
    disk_error: Option<String>,
    auto_accept: bool,
    now: u64,
) -> (r: OfferOutcome)
    requires
        old(state).wf(),
        old(state).notification_counter < u64::MAX,
    ensures
        final(state).wf(),
        match disk_error {
            Some(m) => {
                &&& r == OfferOutcome::Refused
                &&& notification_added(*old(state), *final(state), "Transfer Rejected"@, m@, ""@, now)
                &&& *final(state) == (AppState {
                    notifications: final(state).notifications,
                    notification_counter: final(state).notification_counter,
                    ..*old(state)
                })
            },
            None => if auto_accept {
                &&& r == OfferOutcome::Accepted
                &&& *final(state) == *old(state)
            } else {
                &&& r == OfferOutcome::Waiting
                &&& final(state).file_transfer_requests@ == old(state).file_transfer_requests@.insert(
                    offer.id@,
                    offer,
                )
                &&& notification_added(
                    *old(state),
                    *final(state),
                    "File Transfer Request"@,
                    offer_text(offer),
                    ""@,
                    now,
                )
                &&& *final(state) == (AppState {
                    file_transfer_requests: final(state).file_transfer_requests,
                    notifications: final(state).notifications,
                    notification_counter: final(state).notification_counter,
                    ..*old(state)
                })
            },
        },
{
    match disk_error {
        Some(m) => {
            add_notification(state, "Transfer Rejected", m.as_str(), "", now);
            OfferOutcome::Refused
        },
        None => {
            if auto_accept {
                OfferOutcome::Accepted
            } else {
                let mut msg = offer.from_device.clone();
                msg.append(" wants to send ");
                msg.append(offer.filename.as_str());
                msg.append(" (");
                let n = decimal_string(offer.size);
                msg.append(n.as_str());
                msg.append(" bytes)");
                add_notification(state, "File Transfer Request", msg.as_str(), "", now);
                add_file_transfer_request(state, offer);
                OfferOutcome::Waiting
            }
        },
    }
}

} // verus!
