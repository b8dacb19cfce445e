//! Bookkeeping of the binding layer: the announced size of each running
//! transfer, reported again when the transfer completes, and the reason
//! strings of unpairing notifications.

use vstd::prelude::*;
use crate::strmap::StrMap;

verus! {

/// Total sizes of the transfers in progress, by transfer id.
pub struct TransferSizes {
    sizes: StrMap<u64>,
}

impl View for TransferSizes {
    type V = Map<Seq<char>, u64>;

    closed spec fn view(&self) -> Map<Seq<char>, u64> {
        self.sizes@
    }
}

impl TransferSizes {
    /// Well-formedness of the underlying map.
    pub closed spec fn wf(&self) -> bool {
        self.sizes.wf()
    }

    /// No transfer in progress.
    pub fn new() -> (t: TransferSizes)
        ensures
            t.wf(),
            t@ == Map::<Seq<char>, u64>::empty(),
    {
        TransferSizes { sizes: StrMap::new() }
    }

    /// A transfer starts with the given total size.
    pub fn on_transfer_starting(&mut self, id: String, total_size: u64)
        requires
            old(self).wf(),
        ensures
            final(self).wf(),
            final(self)@ == old(self)@.insert(id@, total_size),
    {
        self.sizes.insert(id, total_size);
    }

    /// Progress of a transfer reports its total size again.
    pub fn on_transfer_progress(&mut self, id: String, total_size: u64)
        requires
            old(self).wf(),
        ensures
            final(self).wf(),
            final(self)@ == old(self)@.insert(id@, total_size),
    {
        self.sizes.insert(id, total_size);
    }

    /// A transfer completed: its recorded size (0 if none) is returned and
    /// forgotten.
    pub fn on_transfer_completed(&mut self, id: &str) -> (size: u64)
        requires
            old(self).wf(),
        ensures
            final(self).wf(),
            final(self)@ == old(self)@.remove(id@),
            size == if old(self)@.contains_key(id@) {
                old(self)@[id@]
            } else {
                0
            },
    {
        match self.sizes.remove(id) {
            Some(n) => n,
            None => 0,
        }
    }

    /// A transfer failed: its recorded size is forgotten.
    pub fn on_transfer_failed(&mut self, id: &str)
        requires
            old(self).wf(),
        ensures
            final(self).wf(),
            final(self)@ == old(self)@.remove(id@),
    {
        let _ = self.sizes.remove(id);
    }

    /// Forgets every transfer (at shutdown).
    pub fn clear(&mut self)
        ensures
            final(self).wf(),
            final(self)@ == Map::<Seq<char>, u64>::empty(),
    {
        self.sizes.clear();
    }
}

/// The size announced when a transfer starts is the size reported when it
/// completes, and completing it again reports 0.
pub proof fn lemma_completed_reports_started_size(
    m: Map<Seq<char>, u64>,
    id: Seq<char>,
    total_size: u64,
)
    ensures
        m.insert(id, total_size).contains_key(id) && m.insert(id, total_size)[id] == total_size,
        !m.insert(id, total_size).remove(id).contains_key(id),
{
}

/// The size last reported for `id` among `reports` (starts and progress
/// reports, in order), if any.
pub open spec fn last_reported_size(reports: Seq<(Seq<char>, u64)>, id: Seq<char>) -> Option<u64>
    decreases reports.len(),
{
    if reports.len() == 0 {
        None
    } else if reports.last().0 == id {
        Some(reports.last().1)
    } else {
        last_reported_size(reports.drop_last(), id)
    }
}

/// Over any run of start and progress reports (`sizes[i + 1]` is `sizes[i]`
/// after `reports[i]`), the size kept for a transfer is the one it last
/// reported, and it is kept exactly when it reported one or was kept
/// before. So a transfer that started completes with the size of its last
/// report, whatever other transfers reported meanwhile, and afterwards no
/// size is kept for it.
pub proof fn lemma_completion_reports_last_size(
    sizes: Seq<Map<Seq<char>, u64>>,
    reports: Seq<(Seq<char>, u64)>,
    id: Seq<char>,
)
    requires
        sizes.len() == reports.len() + 1,
        forall|i: int|
            0 <= i < reports.len() ==> #[trigger] sizes[i + 1] == sizes[i].insert(reports[i].0, reports[i].1),
    ensures
        sizes.last().contains_key(id) <==> last_reported_size(reports, id) is Some || sizes[0].contains_key(id),
        sizes.last().contains_key(id) ==> sizes.last()[id] == match last_reported_size(reports, id) {
            Some(n) => n,
            None => sizes[0][id],
        },
        !sizes.last().remove(id).contains_key(id),
    decreases reports.len(),
{
    if reports.len() > 0 {
        let k = reports.len() - 1;
        let shorter = sizes.drop_last();
        assert forall|i: int| 0 <= i < reports.drop_last().len() implies #[trigger] shorter[i + 1]
            == shorter[i].insert(reports.drop_last()[i].0, reports.drop_last()[i].1) by {
            assert(sizes[i + 1] == sizes[i].insert(reports[i].0, reports[i].1));
        }
        lemma_completion_reports_last_size(shorter, reports.drop_last(), id);
        assert(sizes[k + 1] == sizes[k].insert(reports[k].0, reports[k].1));
        assert(shorter.last() == sizes[k]);
        assert(shorter[0] == sizes[0]);
        assert(sizes.last() == sizes[k + 1]);
    }
}

/// Why a peer was unpaired.
#[derive(Debug, Clone, Copy, PartialEq, Eq, Structural)]
pub enum UnpairReason {
    /// Disconnected, trust kept.
    Unpaired,
    /// Trust removed.
    Forgotten,
}

/// The reason string passed to the bindings.
pub open spec fn unpair_reason_name(r: UnpairReason) -> Seq<char> {
    match r {
        UnpairReason::Unpaired => "unpaired"@,
        UnpairReason::Forgotten => "forgotten"@,
    }
}

/// The reason string of an unpairing.
pub fn unpair_reason_str(r: UnpairReason) -> (s: &'static str)
    ensures
        s@ == unpair_reason_name(r),
{
    match r {
        UnpairReason::Unpaired => "unpaired",
        UnpairReason::Forgotten => "forgotten",
    }
}

/// Reads a reason string from the bindings: `"forgotten"` means the peer
/// was forgotten, anything else that it was unpaired.
pub fn unpair_reason_from_str(reason: &str) -> (r: UnpairReason)
    ensures
        r == if reason@ == "forgotten"@ {
            UnpairReason::Forgotten
        } else {
            UnpairReason::Unpaired
        },
{
    if String::from_str(reason) == String::from_str("forgotten") {
        UnpairReason::Forgotten
    } else {
        UnpairReason::Unpaired
    }
}

/// A reason survives the trip through its string.
pub proof fn lemma_unpair_reason_round_trip(r: UnpairReason)
    ensures
        (if unpair_reason_name(r) == "forgotten"@ {
            UnpairReason::Forgotten
        } else {
            UnpairReason::Unpaired
        }) == r,
{
    reveal_strlit("unpaired");
    reveal_strlit("forgotten");
    assert("unpaired"@.len() != "forgotten"@.len());
}

} // verus!
