//! Which transfers run, and which of them were cancelled.

use std::collections::HashSet;

use vstd::prelude::*;

use crate::table::Table;

verus! {

broadcast use vstd::std_specs::hash::group_hash_axioms;

/// The transfers as a mathematical value.
pub struct TransfersView {
    /// The number of the transfer that runs under a path.
    pub running: Map<Seq<char>, u64>,
    /// The numbers of the transfers that were cancelled.
    pub cancelled: Set<u64>,
    /// The number that the next transfer gets.
    pub next: u64,
}

impl TransfersView {
    /// No two paths share a number, and no number is in use that is yet to be given out.
    pub open spec fn wf(self) -> bool {
        &&& forall|p: Seq<char>, q: Seq<char>|
            self.running.contains_key(p) && self.running.contains_key(q) && p != q
                ==> #[trigger] self.running[p] != #[trigger] self.running[q]
        &&& forall|p: Seq<char>| #[trigger]
            self.running.contains_key(p) ==> self.running[p] < self.next
        &&& forall|n: u64| #[trigger] self.cancelled.contains(n) ==> n < self.next
    }

    /// Whether the transfer that runs under a path was cancelled.
    pub open spec fn is_flagged(self, path: Seq<char>) -> bool {
        self.running.contains_key(path) && self.cancelled.contains(self.running[path])
    }

    /// The transfers once another one runs under a path.
    pub open spec fn begun(self, path: Seq<char>) -> TransfersView {
        TransfersView {
            running: self.running.insert(path, self.next),
            cancelled: self.cancelled,
            next: (self.next + 1) as u64,
        }
    }

    /// The transfers once the one that runs under a path was cancelled, if one does.
    pub open spec fn cancelling(self, path: Seq<char>) -> TransfersView {
        if self.running.contains_key(path) {
            TransfersView { cancelled: self.cancelled.insert(self.running[path]), ..self }
        } else {
            self
        }
    }

    /// The transfers once the one with this number, which ran under a path, is over. Whatever runs
    /// under the path cannot be cancelled then.
    pub open spec fn ended(self, path: Seq<char>, number: u64) -> TransfersView {
        TransfersView {
            running: self.running.remove(path),
            cancelled: self.cancelled.remove(number),
            next: self.next,
        }
    }
}

/// The transfers that run and the numbers that were given out.
struct Transfers {
    running: Table<u64>,
    cancelled: HashSet<u64>,
    next: u64,
}

impl Transfers {
    spec fn seen(self) -> TransfersView {
        TransfersView { running: self.running@, cancelled: self.cancelled@, next: self.next }
    }

    fn none() -> (r: Transfers)
        ensures
            r.seen() == (TransfersView {
                running: Map::empty(),
                cancelled: Set::empty(),
                next: 0,
            }),
    {
        Transfers { running: Table::new(), cancelled: HashSet::new(), next: 0 }
    }

    fn begin(&mut self, path: String) -> (r: u64)
        requires
            old(self).next < u64::MAX,
        ensures
            final(self).seen() == old(self).seen().begun(path@),
            r == old(self).next,
    {
        let number: u64 = self.next;
        self.running.insert(path, number);
        self.next = number + 1;
        number
    }

    fn cancel(&mut self, path: &str)
        ensures
            final(self).seen() == old(self).seen().cancelling(path@),
    {
        match self.running.get(path) {
            Some(number) => {
                let n: u64 = *number;
                self.cancelled.insert(n);
            },
            None => {},
        }
    }

    fn end(&mut self, path: &str, number: u64)
        ensures
            final(self).seen() == old(self).seen().ended(path@, number),
    {
        self.running.remove(path);
        self.cancelled.remove(&number);
    }
}

/// The transfers that run. Each has a number of its own.
pub struct TransferManager {
    transfers: Transfers,
}

impl View for TransferManager {
    type V = TransfersView;

    closed spec fn view(&self) -> TransfersView {
        self.transfers.seen()
    }
}

impl Default for TransferManager {
    /// No transfers.
    fn default() -> (r: TransferManager)
        ensures
            r@.wf(),
            r@ == (TransfersView { running: Map::empty(), cancelled: Set::empty(), next: 0 }),
    {
        TransferManager { transfers: Transfers::none() }
    }
}

impl TransferManager {
    #[verifier::type_invariant]
    spec fn inv(self) -> bool {
        self.transfers.seen().wf()
    }

    /// Tells whether there are numbers left for new transfers.
    pub fn has_numbers(&self) -> (r: bool)
        ensures
            r == (self@.next < u64::MAX),
            self@.wf(),
    {
        proof {
            use_type_invariant(self);
        }
        self.transfers.next < u64::MAX
    }

    /// Begins a transfer under a path and gives its number. There are numbers left for it.
    pub fn begin(&mut self, path: String) -> (r: u64)
        requires
            old(self)@.next < u64::MAX,
        ensures
            final(self)@.wf(),
            final(self)@ == old(self)@.begun(path@),
            r == old(self)@.next,
    {
        proof {
            use_type_invariant(&*self);
            new_transfer_is_not_cancelled(self@, path@, path@);
        }
        let mut transfers = Transfers::none();
        std::mem::swap(&mut transfers, &mut self.transfers);
        let number: u64 = transfers.begin(path);
        self.transfers = transfers;
        number
    }

    /// Cancels the transfer that runs under a path, if one does.
    pub fn cancel_transfer(&mut self, path: &str)
        ensures
            final(self)@.wf(),
            final(self)@ == old(self)@.cancelling(path@),
    {
        proof {
            use_type_invariant(&*self);
            only_the_named_transfer_is_cancelled(self@, path@, path@, 0);
        }
        let mut transfers = Transfers::none();
        std::mem::swap(&mut transfers, &mut self.transfers);
        transfers.cancel(path);
        self.transfers = transfers;
    }

    /// Tells whether a transfer was cancelled.
    pub fn is_cancelled(&self, number: u64) -> (r: bool)
        ensures
            r == self@.cancelled.contains(number),
            self@.wf(),
    {
        proof {
            use_type_invariant(self);
        }
        self.transfers.cancelled.contains(&number)
    }

    /// Ends a transfer that ran under a path, whatever became of it.
    pub fn end(&mut self, path: &str, number: u64)
        ensures
            final(self)@.wf(),
            final(self)@ == old(self)@.ended(path@, number),
    {
        proof {
            use_type_invariant(&*self);
            ended_transfer_is_not_cancelled(self@, path@, path@, number);
        }
        let mut transfers = Transfers::none();
        std::mem::swap(&mut transfers, &mut self.transfers);
        transfers.end(path, number);
        self.transfers = transfers;
    }
}

/// A transfer that has just begun is not cancelled, even where an earlier one under the same path
/// was, and the transfers under other paths stay as they are.
pub proof fn new_transfer_is_not_cancelled(s: TransfersView, path: Seq<char>, other: Seq<char>)
    requires
        s.wf(),
        s.next < u64::MAX,
    ensures
        !s.begun(path).cancelled.contains(s.next),
        s.begun(path).running[path] == s.next,
        other != path ==> s.begun(path).is_flagged(other) == s.is_flagged(other),
        s.begun(path).wf(),
{
}

/// Cancelling concerns the transfer that runs under the path, and no other: neither one that runs
/// under another path, nor an earlier one under the same path. It begins and ends none.
pub proof fn only_the_named_transfer_is_cancelled(
    s: TransfersView,
    path: Seq<char>,
    other: Seq<char>,
    number: u64,
)
    requires
        s.wf(),
    ensures
        s.cancelling(path).is_flagged(path) <==> s.running.contains_key(path),
        other != path ==> s.cancelling(path).is_flagged(other) == s.is_flagged(other),
        !s.running.contains_key(path) ==> s.cancelling(path) == s,
        s.cancelling(path).cancelled.contains(number) <==> s.cancelled.contains(number) || (
        s.running.contains_key(path) && s.running[path] == number),
        s.cancelling(path).running == s.running,
        s.cancelling(path).wf(),
{
}

/// A transfer that is over can no longer be cancelled, and the transfers under other paths stay as
/// they are.
pub proof fn ended_transfer_is_not_cancelled(
    s: TransfersView,
    path: Seq<char>,
    other: Seq<char>,
    number: u64,
)
    requires
        s.wf(),
    ensures
        !s.ended(path, number).cancelled.contains(number),
        s.ended(path, number).cancelling(path) == s.ended(path, number),
        other != path && !(s.running.contains_key(other) && s.running[other] == number) ==> s.ended(
            path,
            number,
        ).is_flagged(other) == s.is_flagged(other),
        s.ended(path, number).wf(),
{
}

/// A transfer that begins gets the next number, and each number is given out once. Cancelling and
/// ending give out none. Transfers under other paths keep their numbers, and numbers of other
/// transfers stay cancelled or not, whatever begins or ends.
pub proof fn other_transfers_stay(
    s: TransfersView,
    path: Seq<char>,
    other: Seq<char>,
    number: u64,
    n: u64,
)
    requires
        s.next < u64::MAX,
    ensures
        s.begun(path).next == s.next + 1,
        s.cancelling(path).next == s.next,
        s.ended(path, number).next == s.next,
        s.begun(path).running.contains_key(path),
        s.begun(path).running[path] == s.next,
        !s.ended(path, number).running.contains_key(path),
        other != path ==> {
            &&& s.begun(path).running.contains_key(other) == s.running.contains_key(other)
            &&& s.begun(path).running[other] == s.running[other]
            &&& s.ended(path, number).running.contains_key(other) == s.running.contains_key(other)
            &&& s.ended(path, number).running[other] == s.running[other]
        },
        s.begun(path).cancelled.contains(n) == s.cancelled.contains(n),
        s.ended(path, number).cancelled.contains(n) <==> s.cancelled.contains(n) && n != number,
{
}

} // verus!
