use vstd::prelude::*;

use crate::error::ErrorKind;
use crate::gate::{Domain, GateController};
use crate::text::same_text;

verus! {

// ---------------------------------------------------------------------------
// Votes: at most one admission per owner key, whatever the target.
// ---------------------------------------------------------------------------

/// One admitted vote: the participant's session token and the chosen candidate.
pub struct VoteRecord {
    pub owner: String,
    pub target: i32,
}

/// A vote as the model sees it.
pub type VoteRow = (Seq<char>, i32);

/// Whether `owner` holds a vote among `rows`.
pub open spec fn voted(rows: Seq<VoteRow>, owner: Seq<char>) -> bool {
    exists|i: int| 0 <= i < rows.len() && rows[i].0 == owner
}

/// No owner holds two votes.
pub open spec fn votes_wf(rows: Seq<VoteRow>) -> bool {
    forall|i: int, j: int| 0 <= i < j < rows.len() ==> rows[i].0 != rows[j].0
}

/// One vote attempt, decided atomically against the recorded votes. A closed
/// gate rejects it before the store is touched; without a store connection
/// nothing is recorded and the failure is reported as transient.
pub open spec fn vote_step(
    rows: Seq<VoteRow>,
    gate_open: bool,
    connected: bool,
    owner: Seq<char>,
    target: i32,
) -> (Seq<VoteRow>, Result<(), ErrorKind>) {
    if !gate_open {
        (rows, Err(ErrorKind::GateClosed))
    } else if !connected {
        (rows, Err(ErrorKind::StoreUnavailable))
    } else if voted(rows, owner) {
        (rows, Err(ErrorKind::AlreadyAdmitted))
    } else {
        (rows.push((owner, target)), Ok(()))
    }
}

/// The admission store for votes: the owner key is unique.
pub struct VoteLedger {
    records: Vec<VoteRecord>,
}

impl View for VoteLedger {
    type V = Seq<VoteRow>;

    closed spec fn view(&self) -> Seq<VoteRow> {
        self.records@.map_values(|r: VoteRecord| (r.owner@, r.target))
    }
}

impl VoteLedger {
    pub open spec fn wf(&self) -> bool {
        votes_wf(self@)
    }

    pub fn new() -> (r: Self)
        ensures
            r@ == Seq::<VoteRow>::empty(),
            r.wf(),
    {
        let r = VoteLedger { records: Vec::new() };
        assert(r@ =~= Seq::<VoteRow>::empty());
        r
    }

    /// The number of votes recorded.
    pub fn len(&self) -> (r: usize)
        ensures
            r == self@.len(),
    {
        self.records.len()
    }

    /// Whether `owner` has voted.
    pub fn has_voted(&self, owner: &str) -> (r: bool)
        ensures
            r == voted(self@, owner@),
    {
        let n = self.records.len();
        let mut i: usize = 0;
        while i < n
            invariant
                n == self@.len(),
                0 <= i <= n,
                forall|j: int| 0 <= j < i ==> self@[j].0 != owner@,
            decreases n - i,
        {
            assert(self@[i as int].0 == self.records@[i as int].owner@);
            if same_text(self.records[i].owner.as_str(), owner) {
                return true;
            }
            i += 1;
        }
        false
    }

    /// The conditional insert: records the vote unless `owner` already holds
    /// one, in a single step.
    pub fn record_vote(&mut self, owner: &str, target: i32) -> (r: Result<(), ErrorKind>)
        requires
            old(self).wf(),
        ensures
            final(self).wf(),
            (final(self)@, r) == vote_step(old(self)@, true, true, owner@, target),
    {
        if self.has_voted(owner) {
            return Err(ErrorKind::AlreadyAdmitted);
        }
        let ghost before = self@;
        self.records.push(VoteRecord { owner: owner.to_owned(), target });
        assert(self@ =~= before.push((owner@, target)));
        Ok(())
    }
}

/// How many of `rows` name `target`.
pub open spec fn votes_for(rows: Seq<VoteRow>, target: i32) -> nat
    decreases rows.len(),
{
    if rows.len() == 0 {
        0
    } else {
        votes_for(rows.drop_last(), target) + if rows.last().1 == target {
            1nat
        } else {
            0nat
        }
    }
}

impl VoteLedger {
    /// The number of votes naming `target`.
    pub fn count_votes(&self, target: i32) -> (r: usize)
        ensures
            r == votes_for(self@, target),
    {
        let n = self.records.len();
        let mut count: usize = 0;
        let mut i: usize = 0;
        while i < n
            invariant
                n == self@.len(),
                0 <= i <= n,
                count <= i,
                count == votes_for(self@.subrange(0, i as int), target),
            decreases n - i,
        {
            assert(self@.subrange(0, i + 1).drop_last() =~= self@.subrange(0, i as int));
            assert(self@[i as int].1 == self.records@[i as int].target);
            if self.records[i].target == target {
                count += 1;
            }
            i += 1;
        }
        assert(self@.subrange(0, n as int) =~= self@);
        count
    }

    /// The results: the number of votes for each of `candidates`, in order.
    pub fn tally(&self, candidates: &Vec<i32>) -> (r: Vec<usize>)
        ensures
            r@.len() == candidates@.len(),
            forall|i: int| 0 <= i < r@.len() ==> r@[i] == votes_for(self@, #[trigger] candidates@[i]),
    {
        let n = candidates.len();
        let mut out: Vec<usize> = Vec::new();
        let mut i: usize = 0;
        while i < n
            invariant
                n == candidates@.len(),
                0 <= i <= n,
                out@.len() == i,
                forall|j: int| 0 <= j < i ==> out@[j] == votes_for(self@, #[trigger] candidates@[j]),
            decreases n - i,
        {
            out.push(self.count_votes(candidates[i]));
            i += 1;
        }
        out
    }
}

/// Turnout: how many participants voted and how many did not.
#[derive(Debug, Clone, Copy, PartialEq, Eq, Structural)]
pub struct AdminStats {
    pub voted: i64,
    pub unvoted: i64,
}

/// Turnout from the number of votes and of participant sessions.
pub fn admin_stats(voted: i64, total_sessions: i64) -> (r: AdminStats)
    requires
        0 <= voted,
        0 <= total_sessions,
    ensures
        r.voted == voted,
        r.unvoted == total_sessions - voted,
{
    AdminStats { voted, unvoted: total_sessions - voted }
}

/// A vote attempt against an already read gate flag; `connected` tells
/// whether a store connection was acquired for the attempt.
pub fn admit_vote(
    gate_open: bool,
    connected: bool,
    ledger: &mut VoteLedger,
    owner: &str,
    target: i32,
) -> (r: Result<(), ErrorKind>)
    requires
        old(ledger).wf(),
    ensures
        final(ledger).wf(),
        (final(ledger)@, r) == vote_step(old(ledger)@, gate_open, connected, owner@, target),
{
    if !gate_open {
        return Err(ErrorKind::GateClosed);
    }
    if !connected {
        return Err(ErrorKind::StoreUnavailable);
    }
    ledger.record_vote(owner, target)
}

/// A vote attempt: reads the voting gate, then records the vote. The outcome
/// is that of one step for whichever flag the read saw.
pub fn try_admit_vote(
    gate: &GateController,
    connected: bool,
    ledger: &mut VoteLedger,
    owner: &str,
    target: i32,
) -> (r: Result<(), ErrorKind>)
    requires
        old(ledger).wf(),
    ensures
        final(ledger).wf(),
        exists|gate_open: bool|
            (final(ledger)@, r) == vote_step(old(ledger)@, gate_open, connected, owner@, target),
{
    let open = gate.read(Domain::Voting);
    admit_vote(open, connected, ledger, owner, target)
}

/// A vote attempt as the model sees it: the flag read, whether the store was
/// reached, the owner key and the target.
pub type VoteCall = (bool, bool, Seq<char>, i32);

/// The votes and outcomes after a sequence of attempts, one after the other.
pub open spec fn run_votes(rows: Seq<VoteRow>, calls: Seq<VoteCall>) -> (
    Seq<VoteRow>,
    Seq<Result<(), ErrorKind>>,
)
    decreases calls.len(),
{
    if calls.len() == 0 {
        (rows, Seq::empty())
    } else {
        let prev = run_votes(rows, calls.drop_last());
        let c = calls.last();
        let next = vote_step(prev.0, c.0, c.1, c.2, c.3);
        (next.0, prev.1.push(next.1))
    }
}

/// How many of the attempts by `owner` were admitted.
pub open spec fn votes_admitted(
    calls: Seq<VoteCall>,
    outcomes: Seq<Result<(), ErrorKind>>,
    owner: Seq<char>,
) -> nat
    decreases calls.len(),
{
    if calls.len() == 0 || outcomes.len() == 0 {
        0
    } else {
        votes_admitted(calls.drop_last(), outcomes.drop_last(), owner) + if calls.last().2 == owner
            && outcomes.last() is Ok {
            1nat
        } else {
            0nat
        }
    }
}

proof fn lemma_voted_push(rows: Seq<VoteRow>, row: VoteRow, owner: Seq<char>)
    ensures
        voted(rows.push(row), owner) == (voted(rows, owner) || row.0 == owner),
{
    let s = rows.push(row);
    if voted(rows, owner) {
        let i = choose|i: int| 0 <= i < rows.len() && rows[i].0 == owner;
        assert(s[i].0 == owner);
    }
    if row.0 == owner {
        assert(s[rows.len() as int].0 == owner);
    }
    if voted(s, owner) {
        let i = choose|i: int| 0 <= i < s.len() && s[i].0 == owner;
        if i < rows.len() {
            assert(rows[i].0 == owner);
        }
    }
}

/// Every vote attempt of a run, however the attempts of all owners
/// interleave, is admitted at most once per owner: an owner who had already
/// voted is never admitted again, each attempt made while voting was open
/// and the store was reached and not admitted is rejected as already
/// admitted, each attempt made while voting was closed is rejected as such,
/// and each attempt that could not reach the store is reported as transient.
pub proof fn vote_admitted_at_most_once(rows: Seq<VoteRow>, calls: Seq<VoteCall>, owner: Seq<char>)
    ensures
        ({
            let (last, outcomes) = run_votes(rows, calls);
            &&& outcomes.len() == calls.len()
            &&& votes_admitted(calls, outcomes, owner) <= 1
            &&& voted(rows, owner) ==> votes_admitted(calls, outcomes, owner) == 0
            &&& voted(last, owner) == (voted(rows, owner) || votes_admitted(calls, outcomes, owner)
                == 1)
            &&& forall|i: int|
                0 <= i < calls.len() ==> {
                    &&& calls[i].0 && calls[i].1 && outcomes[i] is Err ==> outcomes[i] == Err::<
                        (),
                        ErrorKind,
                    >(ErrorKind::AlreadyAdmitted)
                    &&& !calls[i].0 ==> outcomes[i] == Err::<(), ErrorKind>(ErrorKind::GateClosed)
                    &&& calls[i].0 && !calls[i].1 ==> outcomes[i] == Err::<(), ErrorKind>(
                        ErrorKind::StoreUnavailable,
                    )
                }
        }),
    decreases calls.len(),
{
    if calls.len() > 0 {
        let init = calls.drop_last();
        vote_admitted_at_most_once(rows, init, owner);
        let prev = run_votes(rows, init);
        let c = calls.last();
        let next = vote_step(prev.0, c.0, c.1, c.2, c.3);
        let outcomes = prev.1.push(next.1);
        assert(outcomes.drop_last() =~= prev.1);
        if c.0 && c.1 && !voted(prev.0, c.2) {
            lemma_voted_push(prev.0, (c.2, c.3), owner);
        }
        assert forall|i: int| 0 <= i < calls.len() implies {
            &&& calls[i].0 && calls[i].1 && outcomes[i] is Err ==> outcomes[i] == Err::<
                (),
                ErrorKind,
            >(ErrorKind::AlreadyAdmitted)
            &&& !calls[i].0 ==> outcomes[i] == Err::<(), ErrorKind>(ErrorKind::GateClosed)
            &&& calls[i].0 && !calls[i].1 ==> outcomes[i] == Err::<(), ErrorKind>(
                ErrorKind::StoreUnavailable,
            )
        } by {
            if i < init.len() {
                assert(calls[i] == init[i]);
                assert(outcomes[i] == prev.1[i]);
            }
        }
    }
}

// ---------------------------------------------------------------------------
// Registrations: at most `capacity` admissions per slot.
// ---------------------------------------------------------------------------

/// One admitted registration: its id and the owner key.
struct Registration {
    id: u64,
    owner: String,
}

/// A registration slot: its key, its capacity and the registrations admitted to it.
struct Slot {
    id: i32,
    capacity: u32,
    holders: Vec<Registration>,
}

/// A registration as the model sees it: id and owner key.
pub type RegistrationRow = (u64, Seq<char>);

/// A slot as the model sees it: key, capacity and admitted registrations.
pub type SlotRow = (i32, u32, Seq<RegistrationRow>);

/// Slot keys are unique, and no slot holds more owners than its capacity.
pub open spec fn slots_wf(rows: Seq<SlotRow>) -> bool {
    &&& forall|i: int, j: int| 0 <= i < j < rows.len() ==> rows[i].0 != rows[j].0
    &&& forall|i: int| 0 <= i < rows.len() ==> rows[i].2.len() <= rows[i].1
}

pub open spec fn has_slot(rows: Seq<SlotRow>, id: i32) -> bool {
    exists|i: int| 0 <= i < rows.len() && rows[i].0 == id
}

/// The position of the slot keyed `id`, where there is one.
pub open spec fn slot_index(rows: Seq<SlotRow>, id: i32) -> int {
    choose|i: int| 0 <= i < rows.len() && rows[i].0 == id
}

/// The number of owners admitted to slot `id` (none where there is no such slot).
pub open spec fn holders_of(rows: Seq<SlotRow>, id: i32) -> nat {
    if has_slot(rows, id) {
        rows[slot_index(rows, id)].2.len()
    } else {
        0
    }
}

/// The capacity of slot `id` (none where there is no such slot).
pub open spec fn capacity_of(rows: Seq<SlotRow>, id: i32) -> nat {
    if has_slot(rows, id) {
        rows[slot_index(rows, id)].1 as nat
    } else {
        0
    }
}

/// Every registration id in `rows` lies below `bound`.
pub open spec fn ids_below(rows: Seq<SlotRow>, bound: u64) -> bool {
    forall|i: int, j: int| 0 <= i < rows.len() && 0 <= j < rows[i].2.len() ==> rows[i].2[j].0 < bound
}

/// One registration attempt, which would be given the id `new_id`: the
/// capacity check and the insert form a single step, so no interleaving can
/// overbook a slot. A closed gate rejects it before the store is touched;
/// without a store connection, or with the ids used up, nothing is recorded
/// and the failure is reported as transient.
pub open spec fn registration_step(
    rows: Seq<SlotRow>,
    gate_open: bool,
    connected: bool,
    owner: Seq<char>,
    id: i32,
    new_id: u64,
) -> (Seq<SlotRow>, Result<u64, ErrorKind>) {
    if !gate_open {
        (rows, Err(ErrorKind::GateClosed))
    } else if !connected {
        (rows, Err(ErrorKind::StoreUnavailable))
    } else if !has_slot(rows, id) {
        (rows, Err(ErrorKind::SlotNotFound))
    } else {
        let i = slot_index(rows, id);
        let s = rows[i];
        if s.2.len() >= s.1 {
            (rows, Err(ErrorKind::CapacityExceeded))
        } else if new_id == u64::MAX {
            (rows, Err(ErrorKind::StoreUnavailable))
        } else {
            (rows.update(i, (s.0, s.1, s.2.push((new_id, owner)))), Ok(new_id))
        }
    }
}

proof fn lemma_slot_index(rows: Seq<SlotRow>, id: i32, i: int)
    requires
        forall|a: int, b: int| 0 <= a < b < rows.len() ==> rows[a].0 != rows[b].0,
        0 <= i < rows.len(),
        rows[i].0 == id,
    ensures
        has_slot(rows, id),
        slot_index(rows, id) == i,
{
    assert(has_slot(rows, id));
    let j = slot_index(rows, id);
    if j < i {
        assert(rows[j].0 != rows[i].0);
    } else if i < j {
        assert(rows[i].0 != rows[j].0);
    }
}

/// The admission store for registrations.
pub struct RegistrationBook {
    slots: Vec<Slot>,
    next_id: u64,
}

spec fn slot_row(s: Slot) -> SlotRow {
    (s.id, s.capacity, s.holders@.map_values(|h: Registration| (h.id, h.owner@)))
}

impl View for RegistrationBook {
    type V = Seq<SlotRow>;

    closed spec fn view(&self) -> Seq<SlotRow> {
        self.slots@.map_values(|s: Slot| slot_row(s))
    }
}

impl RegistrationBook {
    /// The id the next admitted registration receives.
    pub closed spec fn next_id_view(&self) -> u64 {
        self.next_id
    }

    pub open spec fn wf(&self) -> bool {
        &&& slots_wf(self@)
        &&& ids_below(self@, self.next_id_view())
    }

    pub fn new() -> (r: Self)
        ensures
            r@ == Seq::<SlotRow>::empty(),
            r.next_id_view() == 1,
            r.wf(),
    {
        let r = RegistrationBook { slots: Vec::new(), next_id: 1 };
        assert(r@ =~= Seq::<SlotRow>::empty());
        r
    }

    /// The position of the slot keyed `id`.
    pub fn find_slot(&self, id: i32) -> (r: Option<usize>)
        requires
            self.wf(),
        ensures
            r is None <==> !has_slot(self@, id),
            r matches Some(i) ==> i < self@.len() && i == slot_index(self@, id),
    {
        let n = self.slots.len();
        let mut i: usize = 0;
        while i < n
            invariant
                n == self@.len(),
                0 <= i <= n,
                slots_wf(self@),
                forall|j: int| 0 <= j < i ==> self@[j].0 != id,
            decreases n - i,
        {
            assert(self@[i as int].0 == self.slots@[i as int].id);
            if self.slots[i].id == id {
                proof {
                    lemma_slot_index(self@, id, i as int);
                }
                return Some(i);
            }
            i += 1;
        }
        None
    }

    /// Adds an empty slot keyed `id`; does nothing and answers `false` where
    /// that key is taken.
    pub fn open_slot(&mut self, id: i32, capacity: u32) -> (r: bool)
        requires
            old(self).wf(),
        ensures
            final(self).wf(),
            final(self).next_id_view() == old(self).next_id_view(),
            r == !has_slot(old(self)@, id),
            r ==> final(self)@ == old(self)@.push((id, capacity, Seq::<RegistrationRow>::empty())),
            !r ==> final(self)@ == old(self)@,
    {
        if self.find_slot(id).is_some() {
            return false;
        }
        let ghost before = self@;
        let slot = Slot { id, capacity, holders: Vec::new() };
        assert(slot_row(slot).2 =~= Seq::<RegistrationRow>::empty());
        self.slots.push(slot);
        assert(self@ =~= before.push((id, capacity, Seq::<RegistrationRow>::empty())));
        true
    }

    /// How many more owners slot `id` admits.
    pub fn available_spots(&self, id: i32) -> (r: Option<u32>)
        requires
            self.wf(),
        ensures
            !has_slot(self@, id) ==> r is None,
            has_slot(self@, id) ==> r == Some((capacity_of(self@, id) - holders_of(self@, id)) as u32),
    {
        match self.find_slot(id) {
            None => None,
            Some(i) => {
                let s = &self.slots[i];
                assert(slot_row(*s) == self@[i as int]);
                Some(s.capacity - s.holders.len() as u32)
            },
        }
    }

    /// The conditional insert: admits `owner` to slot `id` under the next
    /// id only while the slot is below capacity, in a single step.
    pub fn record_registration(&mut self, owner: &str, id: i32) -> (r: Result<u64, ErrorKind>)
        requires
            old(self).wf(),
        ensures
            final(self).wf(),
            (final(self)@, r) == registration_step(
                old(self)@,
                true,
                true,
                owner@,
                id,
                old(self).next_id_view(),
            ),
            final(self).next_id_view() == if r is Ok {
                (old(self).next_id_view() + 1) as u64
            } else {
                old(self).next_id_view()
            },
    {
        let i = match self.find_slot(id) {
            None => return Err(ErrorKind::SlotNotFound),
            Some(i) => i,
        };
        let ghost before = self@;
        assert(slot_row(self.slots@[i as int]) == before[i as int]);
        if self.slots[i].holders.len() >= self.slots[i].capacity as usize {
            return Err(ErrorKind::CapacityExceeded);
        }
        if self.next_id == u64::MAX {
            return Err(ErrorKind::StoreUnavailable);
        }
        let new_id = self.next_id;
        self.slots[i].holders.push(Registration { id: new_id, owner: owner.to_owned() });
        self.next_id = new_id + 1;
        let ghost s = before[i as int];
        assert(slot_row(self.slots@[i as int]).2 =~= s.2.push((new_id, owner@)));
        assert(self@ =~= before.update(i as int, (s.0, s.1, s.2.push((new_id, owner@)))));
        assert(ids_below(self@, self.next_id)) by {
            assert forall|a: int, b: int|
                0 <= a < self@.len() && 0 <= b < self@[a].2.len() implies self@[a].2[b].0
                < self.next_id by {
                if a == i as int && b == s.2.len() {
                } else {
                    assert(self@[a].2[b] == before[a].2[b]);
                }
            }
        }
        Ok(new_id)
    }
}

/// A registration attempt against an already read gate flag; `connected`
/// tells whether a store connection was acquired for the attempt. The id of
/// the admitted registration is returned.
pub fn admit_registration(
    gate_open: bool,
    connected: bool,
    book: &mut RegistrationBook,
    owner: &str,
    id: i32,
) -> (r: Result<u64, ErrorKind>)
    requires
        old(book).wf(),
    ensures
        final(book).wf(),
        (final(book)@, r) == registration_step(
            old(book)@,
            gate_open,
            connected,
            owner@,
            id,
            old(book).next_id_view(),
        ),
        final(book).next_id_view() == if r is Ok {
            (old(book).next_id_view() + 1) as u64
        } else {
            old(book).next_id_view()
        },
{
    if !gate_open {
        return Err(ErrorKind::GateClosed);
    }
    if !connected {
        return Err(ErrorKind::StoreUnavailable);
    }
    book.record_registration(owner, id)
}

/// A registration attempt: reads the registration gate, then admits to the
/// slot. The outcome is that of one step for whichever flag the read saw.
pub fn try_admit_registration(
    gate: &GateController,
    connected: bool,
    book: &mut RegistrationBook,
    owner: &str,
    id: i32,
) -> (r: Result<u64, ErrorKind>)
    requires
        old(book).wf(),
    ensures
        final(book).wf(),
        exists|gate_open: bool|
            (final(book)@, r) == registration_step(
                old(book)@,
                gate_open,
                connected,
                owner@,
                id,
                old(book).next_id_view(),
            ),
        final(book).next_id_view() == if r is Ok {
            (old(book).next_id_view() + 1) as u64
        } else {
            old(book).next_id_view()
        },
{
    let open = gate.read(Domain::Registration);
    admit_registration(open, connected, book, owner, id)
}

/// A registration attempt as the model sees it: the flag read, whether the
/// store was reached, the owner key, the slot key and the id it would get.
pub type RegistrationCall = (bool, bool, Seq<char>, i32, u64);

/// The slots and outcomes after a sequence of attempts, one after the other.
pub open spec fn run_registrations(rows: Seq<SlotRow>, calls: Seq<RegistrationCall>) -> (
    Seq<SlotRow>,
    Seq<Result<u64, ErrorKind>>,
)
    decreases calls.len(),
{
    if calls.len() == 0 {
        (rows, Seq::empty())
    } else {
        let prev = run_registrations(rows, calls.drop_last());
        let c = calls.last();
        let next = registration_step(prev.0, c.0, c.1, c.2, c.3, c.4);
        (next.0, prev.1.push(next.1))
    }
}

/// How many of the attempts on slot `id` were admitted.
pub open spec fn registrations_admitted(
    calls: Seq<RegistrationCall>,
    outcomes: Seq<Result<u64, ErrorKind>>,
    id: i32,
) -> nat
    decreases calls.len(),
{
    if calls.len() == 0 || outcomes.len() == 0 {
        0
    } else {
        registrations_admitted(calls.drop_last(), outcomes.drop_last(), id) + if calls.last().3 == id
            && outcomes.last() is Ok {
            1nat
        } else {
            0nat
        }
    }
}

proof fn lemma_registration_step(rows: Seq<SlotRow>, c: RegistrationCall, id: i32)
    requires
        slots_wf(rows),
    ensures
        ({
            let (next, out) = registration_step(rows, c.0, c.1, c.2, c.3, c.4);
            &&& slots_wf(next)
            &&& has_slot(next, id) == has_slot(rows, id)
            &&& capacity_of(next, id) == capacity_of(rows, id)
            &&& holders_of(next, id) == holders_of(rows, id) + if c.3 == id && out is Ok {
                1nat
            } else {
                0nat
            }
        }),
{
    let (next, out) = registration_step(rows, c.0, c.1, c.2, c.3, c.4);
    if out is Ok {
        let i = slot_index(rows, c.3);
        assert(forall|j: int| 0 <= j < rows.len() ==> next[j].0 == rows[j].0);
        if has_slot(rows, id) {
            let k = slot_index(rows, id);
            lemma_slot_index(next, id, k);
        }
        if has_slot(next, id) {
            let k = slot_index(next, id);
            assert(rows[k].0 == id);
        }
    }
}

/// However the registration attempts of a run interleave, slot `id` never
/// admits more owners than its capacity: the admissions of the run add to
/// the owners it held, and the sum stays within the capacity.
pub proof fn registrations_within_capacity(
    rows: Seq<SlotRow>,
    calls: Seq<RegistrationCall>,
    id: i32,
)
    requires
        slots_wf(rows),
    ensures
        ({
            let (last, outcomes) = run_registrations(rows, calls);
            &&& outcomes.len() == calls.len()
            &&& slots_wf(last)
            &&& capacity_of(last, id) == capacity_of(rows, id)
            &&& holders_of(last, id) == holders_of(rows, id) + registrations_admitted(
                calls,
                outcomes,
                id,
            )
            &&& holders_of(rows, id) + registrations_admitted(calls, outcomes, id) <= capacity_of(
                rows,
                id,
            )
        }),
    decreases calls.len(),
{
    if calls.len() == 0 {
        if has_slot(rows, id) {
            assert(rows[slot_index(rows, id)].2.len() <= rows[slot_index(rows, id)].1);
        }
    } else {
        let init = calls.drop_last();
        registrations_within_capacity(rows, init, id);
        let prev = run_registrations(rows, init);
        let c = calls.last();
        lemma_registration_step(prev.0, c, id);
        let next = registration_step(prev.0, c.0, c.1, c.2, c.3, c.4);
        assert(prev.1.push(next.1).drop_last() =~= prev.1);
        if has_slot(next.0, id) {
            assert(next.0[slot_index(next.0, id)].2.len() <= next.0[slot_index(next.0, id)].1);
        }
    }
}

} // verus!
