//! Fan-out Scheduler: which responses go on to a transfer, the collection of
//! every transfer's outcome behind a full barrier, and an optional gate on
//! how many transfers run at once.
use vstd::prelude::*;

use crate::transfer::TransferOutcome;

verus! {

/// The HTTP status that lets a response go on to a transfer.
pub const HTTP_OK: u16 = 200;

/// Whether a dispatch result (`None` when the request could not be sent,
/// else the response's status) goes on to a transfer.
pub open spec fn is_retained(r: Option<u16>) -> bool {
    r == Some(HTTP_OK)
}

/// The positions of the retained results, in order.
pub open spec fn retained_spec(rs: Seq<Option<u16>>) -> Seq<int>
    decreases rs.len(),
{
    if rs.len() == 0 {
        Seq::empty()
    } else if is_retained(rs.last()) {
        retained_spec(rs.drop_last()).push(rs.len() - 1)
    } else {
        retained_spec(rs.drop_last())
    }
}

/// The outcome of the filter stage: the positions of the targets whose
/// response goes on to a transfer, and how many were dropped.
#[derive(Clone, Debug)]
pub struct Filtered {
    pub retained: Vec<usize>,
    pub discarded: usize,
}

/// Keeps the targets whose request was sent and answered with status 200;
/// a failed send and any other status are dropped and counted.
pub fn filter_responses(results: &Vec<Option<u16>>) -> (r: Filtered)
    ensures
        r.retained@.len() == retained_spec(results@).len(),
        forall|k: int|
            0 <= k < r.retained@.len() ==> r.retained@[k] as int == retained_spec(results@)[k],
        r.discarded + r.retained@.len() == results@.len(),
{
    let mut retained: Vec<usize> = Vec::new();
    let mut i: usize = 0;
    while i < results.len()
        invariant
            i <= results@.len(),
            retained@.len() == retained_spec(results@.subrange(0, i as int)).len(),
            retained@.len() <= i,
            forall|k: int|
                0 <= k < retained@.len() ==> retained@[k] as int == retained_spec(
                    results@.subrange(0, i as int),
                )[k],
        decreases results@.len() - i,
    {
        proof {
            assert(results@.subrange(0, i + 1).drop_last() =~= results@.subrange(0, i as int));
        }
        if results[i] == Some(HTTP_OK) {
            retained.push(i);
        }
        i = i + 1;
    }
    proof {
        assert(results@.subrange(0, i as int) =~= results@);
    }
    let discarded = results.len() - retained.len();
    Filtered { retained, discarded }
}

/// Each retained position is in range, holds status 200, and comes after
/// the one before it; each position that holds status 200 is retained.
pub proof fn lemma_retained_members(rs: Seq<Option<u16>>)
    ensures
        forall|k: int|
            0 <= k < retained_spec(rs).len() ==> 0 <= #[trigger] retained_spec(rs)[k] < rs.len()
                && is_retained(rs[retained_spec(rs)[k]]),
        forall|k1: int, k2: int|
            0 <= k1 < k2 < retained_spec(rs).len() ==> retained_spec(rs)[k1]
                < retained_spec(rs)[k2],
        forall|j: int| 0 <= j < rs.len() && is_retained(rs[j]) ==> retained_spec(rs).contains(j),
        retained_spec(rs).len() <= rs.len(),
    decreases rs.len(),
{
    if rs.len() > 0 {
        let prev = rs.drop_last();
        lemma_retained_members(prev);
        assert forall|j: int| 0 <= j < rs.len() && is_retained(rs[j]) implies retained_spec(
            rs,
        ).contains(j) by {
            if j < rs.len() - 1 {
                assert(prev[j] == rs[j]);
                assert(is_retained(prev[j]));
                assert(retained_spec(prev).contains(j));
                let k = choose|k: int| 0 <= k < retained_spec(prev).len() && retained_spec(prev)[k] == j;
                if is_retained(rs.last()) {
                    assert(retained_spec(prev).push(rs.len() - 1)[k] == retained_spec(prev)[k]);
                }
                assert(retained_spec(rs)[k] == j);
            } else {
                assert(retained_spec(rs)[retained_spec(rs).len() - 1] == j);
            }
        }
        assert forall|k: int| 0 <= k < retained_spec(rs).len() implies 0
            <= #[trigger] retained_spec(rs)[k] < rs.len() && is_retained(
            rs[retained_spec(rs)[k]],
        ) by {
            if k < retained_spec(prev).len() {
                assert(prev[retained_spec(prev)[k]] == rs[retained_spec(prev)[k]]);
            }
        }
    }
}

/// A target whose request failed, or whose status is not 200, never goes on
/// to a transfer: no file is created or written for it.
pub proof fn lemma_non_ok_is_dropped(rs: Seq<Option<u16>>, i: int)
    requires
        0 <= i < rs.len(),
        !is_retained(rs[i]),
    ensures
        !retained_spec(rs).contains(i),
{
    lemma_retained_members(rs);
}

/// With no targets nothing goes on to a transfer, and a collector for no
/// transfers is complete at once, with no outcomes.
pub proof fn lemma_no_targets(rs: Seq<Option<u16>>)
    requires
        rs.len() == 0,
    ensures
        retained_spec(rs).len() == 0,
        all_recorded(Seq::new(retained_spec(rs).len(), |i: int| None::<TransferOutcome>)),
        Seq::new(retained_spec(rs).len(), |i: int| None::<TransferOutcome>).len() == 0,
{
}

/// When every request is answered with status 200, every target goes on to
/// a transfer, each once and in order.
pub proof fn lemma_all_ok_all_retained(rs: Seq<Option<u16>>)
    requires
        forall|j: int| 0 <= j < rs.len() ==> is_retained(#[trigger] rs[j]),
    ensures
        retained_spec(rs) == Seq::new(rs.len(), |j: int| j),
    decreases rs.len(),
{
    if rs.len() > 0 {
        let prev = rs.drop_last();
        assert forall|j: int| 0 <= j < prev.len() implies is_retained(#[trigger] prev[j]) by {
            assert(prev[j] == rs[j]);
        }
        lemma_all_ok_all_retained(prev);
        assert(retained_spec(rs) =~= Seq::new(rs.len(), |j: int| j));
    }
}

/// Whether every slot holds an outcome.
pub open spec fn all_recorded(slots: Seq<Option<TransferOutcome>>) -> bool {
    forall|i: int| 0 <= i < slots.len() ==> (#[trigger] slots[i]) is Some
}

/// Collects one outcome per transfer, each recorded at most once, and hands
/// them out only when every transfer has reported.
pub struct Collector {
    slots: Vec<Option<TransferOutcome>>,
}

impl View for Collector {
    type V = Seq<Option<TransferOutcome>>;

    closed spec fn view(&self) -> Seq<Option<TransferOutcome>> {
        self.slots@
    }
}

impl Collector {
    /// A collector for `n` transfers, none of them reported yet.
    pub fn new(n: usize) -> (r: Collector)
        ensures
            r@ == Seq::new(n as nat, |i: int| None::<TransferOutcome>),
    {
        let mut slots: Vec<Option<TransferOutcome>> = Vec::new();
        let mut i: usize = 0;
        while i < n
            invariant
                i <= n,
                slots@ == Seq::new(i as nat, |j: int| None::<TransferOutcome>),
            decreases n - i,
        {
            slots.push(None);
            i = i + 1;
            proof {
                assert(slots@ =~= Seq::new(i as nat, |j: int| None::<TransferOutcome>));
            }
        }
        Collector { slots }
    }

    /// The number of transfers collected for.
    pub fn len(&self) -> (r: usize)
        ensures
            r == self@.len(),
    {
        self.slots.len()
    }

    /// Records the outcome of transfer `i`. An outcome is never replaced:
    /// when `i` is out of range or already reported, nothing changes and the
    /// result is `false`.
    pub fn record(&mut self, i: usize, outcome: TransferOutcome) -> (r: bool)
        ensures
            r == (i < old(self)@.len() && old(self)@[i as int] is None),
            r ==> final(self)@ == old(self)@.update(i as int, Some(outcome)),
            !r ==> final(self)@ == old(self)@,
    {
        if i < self.slots.len() && self.slots[i].is_none() {
            self.slots.set(i, Some(outcome));
            true
        } else {
            false
        }
    }

    /// Whether every transfer has reported.
    pub fn is_complete(&self) -> (r: bool)
        ensures
            r == all_recorded(self@),
    {
        let mut i: usize = 0;
        while i < self.slots.len()
            invariant
                i <= self@.len(),
                forall|j: int| 0 <= j < i ==> (#[trigger] self@[j]) is Some,
            decreases self@.len() - i,
        {
            if self.slots[i].is_none() {
                return false;
            }
            i = i + 1;
        }
        true
    }

    /// The outcomes in transfer order, once every transfer has reported;
    /// `None` before that.
    pub fn outcomes(&self) -> (r: Option<Vec<TransferOutcome>>)
        ensures
            r is Some == all_recorded(self@),
            r matches Some(v) ==> v@.len() == self@.len() && forall|i: int|
                0 <= i < v@.len() ==> self@[i] == Some(#[trigger] v@[i]),
    {
        let mut out: Vec<TransferOutcome> = Vec::new();
        let mut i: usize = 0;
        while i < self.slots.len()
            invariant
                i <= self@.len(),
                out@.len() == i,
                forall|j: int| 0 <= j < i ==> self@[j] == Some(#[trigger] out@[j]),
            decreases self@.len() - i,
        {
            match &self.slots[i] {
                Some(o) => out.push(o.duplicate()),
                None => {
                    return None;
                },
            }
            i = i + 1;
        }
        proof {
            assert forall|j: int| 0 <= j < self@.len() implies (#[trigger] self@[j]) is Some by {
                assert(self@[j] == Some(out@[j]));
            }
        }
        Some(out)
    }
}

/// A bound on how many transfers run at once: `None` for no bound.
pub struct Gate {
    limit: Option<usize>,
    active: usize,
}

/// What a gate holds: its bound and how many transfers hold a place.
pub struct GateView {
    pub limit: Option<nat>,
    pub active: nat,
}

impl View for Gate {
    type V = GateView;

    closed spec fn view(&self) -> GateView {
        GateView {
            limit: match self.limit {
                Some(l) => Some(l as nat),
                None => None,
            },
            active: self.active as nat,
        }
    }
}

/// Whether a gate with this view may let one more transfer in.
pub open spec fn has_room(g: GateView) -> bool {
    match g.limit {
        Some(l) => g.active < l,
        None => g.active < usize::MAX,
    }
}

impl Gate {
    /// A gate with the given bound and no transfer inside.
    pub fn new(limit: Option<usize>) -> (r: Gate)
        ensures
            r@.limit == (match limit {
                Some(l) => Some(l as nat),
                None => None::<nat>,
            }),
            r@.active == 0,
    {
        Gate { limit, active: 0 }
    }

    /// Lets one more transfer in when there is room, and says whether it did.
    pub fn try_enter(&mut self) -> (r: bool)
        ensures
            r == has_room(old(self)@),
            final(self)@.limit == old(self)@.limit,
            r ==> final(self)@.active == old(self)@.active + 1,
            !r ==> final(self)@.active == old(self)@.active,
    {
        let room = match self.limit {
            Some(l) => self.active < l,
            None => self.active < usize::MAX,
        };
        if room {
            self.active = self.active + 1;
        }
        room
    }

    /// Frees the place of a finished transfer; with none inside, nothing changes.
    pub fn leave(&mut self)
        ensures
            final(self)@.limit == old(self)@.limit,
            old(self)@.active > 0 ==> final(self)@.active == old(self)@.active - 1,
            old(self)@.active == 0 ==> final(self)@.active == 0,
    {
        if self.active > 0 {
            self.active = self.active - 1;
        }
    }

    /// How many transfers are inside.
    pub fn active(&self) -> (r: usize)
        ensures
            r == self@.active,
    {
        self.active
    }
}

/// A bounded gate never holds more transfers than its bound, whatever the
/// order of entries and exits.
pub proof fn lemma_gate_stays_bounded(before: GateView, after: GateView, entered: bool)
    requires
        before.limit matches Some(l) ==> before.active <= l,
        entered == has_room(before),
        after.limit == before.limit,
        entered ==> after.active == before.active + 1,
        !entered ==> after.active == before.active,
    ensures
        after.limit matches Some(l) ==> after.active <= l,
{
}

} // verus!
